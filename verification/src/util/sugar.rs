//! Small conveniences for empty values and lists.
use vstd::prelude::*;

verus! {

/// Conveniences for empty values and lists.
pub struct SaSugar;

impl SaSugar {
    /// The empty string.
    pub fn empty_string() -> (r: String)
        ensures
            r@ == Seq::<char>::empty(),
    {
        String::new()
    }

    /// The empty list.
    pub fn empty_list() -> (r: Vec<String>)
        ensures
            r@.len() == 0,
    {
        Vec::new()
    }

    /// The items as owned strings, in order.
    pub fn to_list(items: &[&str]) -> (r: Vec<String>)
        ensures
            r@.len() == items@.len(),
            forall|j: int| 0 <= j < items@.len() ==> #[trigger] r@[j]@ == items@[j]@,
    {
        let mut r: Vec<String> = Vec::new();
        let mut i: usize = 0;
        while i < items.len()
            invariant
                i <= items@.len(),
                r@.len() == i,
                forall|j: int| 0 <= j < i ==> #[trigger] r@[j]@ == items@[j]@,
            decreases items@.len() - i,
        {
            r.push(items[i].to_owned());
            i += 1;
        }
        r
    }
}

} // verus!
