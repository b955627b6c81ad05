//! The global strategy: list membership with wildcards, session making and
//! unique token making.
use vstd::prelude::*;
use crate::session::{SaSession, SessionModel, TerminalModel};
use crate::text::{str_eq, views};
use crate::util::fox_util::{is_alnum, random_string, vague_match, wildcard_match, lemma_encode_utf8_concat, lemma_encode_star, law_wildcard_reflexive, law_trailing_star};
use vstd::utf8::encode_utf8;

verus! {

/// `vague_match` over the characters of the pattern and the text.
pub open spec fn vague_matches(p: Seq<char>, s: Seq<char>) -> bool {
    if p == s {
        true
    } else if !p.contains('*') {
        false
    } else {
        wildcard_match(encode_utf8(p), encode_utf8(s))
    }
}

/// The list holds the element, or a pattern that matches it.
pub open spec fn list_has_element(list: Seq<Seq<char>>, element: Seq<char>) -> bool {
    list.len() > 0 && (list.contains(element) || exists|i: int| 0 <= i < list.len() && vague_matches(#[trigger] list[i], element))
}

/// A pattern made of a text followed by `*` matches the text, and a list
/// holding such a pattern holds the text: `has_element` answers true.
pub proof fn law_trailing_star_has_element(list: Seq<Seq<char>>, element: Seq<char>)
    requires
        list.contains(element + seq!['*']),
    ensures
        vague_matches(element + seq!['*'], element),
        list_has_element(list, element),
{
    let p = element + seq!['*'];
    assert(p[element.len() as int] == '*');
    assert(p.contains('*'));
    lemma_encode_utf8_concat(element, seq!['*']);
    lemma_encode_star();
    law_wildcard_reflexive(encode_utf8(element));
    law_trailing_star(encode_utf8(element), encode_utf8(element), Seq::<u8>::empty());
    assert(encode_utf8(element) + seq![42u8] =~= encode_utf8(element).push(42u8));
    let k = choose|k: int| 0 <= k < list.len() && list[k] == p;
    assert(vague_matches(list[k], element));
}

/// The global strategy.
pub struct SaStrategy;

impl SaStrategy {
    /// The strategy.
    pub fn instance() -> (r: Self) {
        SaStrategy
    }

    /// Whether the list holds the element, or a pattern with `*` that matches it.
    pub fn has_element(&self, list: &Vec<String>, element: &str) -> (r: bool)
        ensures
            r == list_has_element(views(list@), element@),
    {
        if list.len() == 0 {
            return false;
        }
        let mut i: usize = 0;
        while i < list.len()
            invariant
                i <= list@.len(),
                forall|j: int| 0 <= j < i ==> list@[j]@ != element@,
            decreases list@.len() - i,
        {
            if str_eq(list[i].as_str(), element) {
                assert(views(list@)[i as int] == element@);
                return true;
            }
            i += 1;
        }
        proof {
            if views(list@).contains(element@) {
                let k = choose|k: int| 0 <= k < views(list@).len() && views(list@)[k] == element@;
                assert(list@[k]@ == element@);
            }
        }
        let mut j: usize = 0;
        while j < list.len()
            invariant
                j <= list@.len(),
                !views(list@).contains(element@),
                forall|k: int| 0 <= k < j ==> !vague_matches(#[trigger] views(list@)[k], element@),
            decreases list@.len() - j,
        {
            let m = vague_match(list[j].as_str(), element);
            assert(m == vague_matches(views(list@)[j as int], element@));
            if m {
                return true;
            }
            j += 1;
        }
        false
    }

    /// A new session with this id.
    pub fn create_session(&self, id: &str) -> (r: SaSession)
        ensures
            r@ == (SessionModel {
                id: id@,
                session_type: Seq::<char>::empty(),
                login_type: Seq::<char>::empty(),
                login_id: Seq::<char>::empty(),
                token: Seq::<char>::empty(),
                terminals: Seq::<TerminalModel>::empty(),
            }),
    {
        SaSession::new(id)
    }

    /// A unique token: 64 random letters and digits.
    pub fn generate_unique_token(&self, login_type: &str, token_value: &str) -> (r: String)
        ensures
            r@.len() == 64,
            forall|i: int| 0 <= i < 64 ==> is_alnum(#[trigger] r@[i]),
    {
        random_string(64)
    }
}

impl Default for SaStrategy {
    fn default() -> (r: Self) {
        SaStrategy
    }
}

} // verus!
