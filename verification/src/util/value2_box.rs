//! A holder that takes a value once.
use vstd::prelude::*;

verus! {

/// Holds at most one value; only the first assignment takes effect.
pub struct SaValue2Box<T> {
    inner: Option<T>,
}

impl<T> SaValue2Box<T> {
    /// The value held, if any.
    pub closed spec fn value(&self) -> Option<T> {
        self.inner
    }

    /// An empty holder.
    pub fn new() -> (r: Self)
        ensures
            r.value() is None,
    {
        SaValue2Box { inner: None }
    }

    /// Stores the value if the holder is empty; `true` when it was stored.
    pub fn set(&mut self, value: T) -> (r: bool)
        ensures
            r == old(self).value() is None,
            final(self).value() == (if r { Some(value) } else { old(self).value() }),
    {
        if self.inner.is_none() {
            self.inner = Some(value);
            true
        } else {
            false
        }
    }

    /// The value held, if any.
    pub fn get(&self) -> (r: Option<T>)
        where
            T: Copy,
        ensures
            r == self.value(),
    {
        match &self.inner {
            Some(v) => Some(*v),
            None => None,
        }
    }

    /// Gives the value up.
    pub fn take(self) -> (r: Option<T>)
        ensures
            r == self.value(),
    {
        self.inner
    }
}

impl<T> Default for SaValue2Box<T> {
    fn default() -> (r: Self)
        ensures
            r.value() is None,
    {
        Self::new()
    }
}

} // verus!
