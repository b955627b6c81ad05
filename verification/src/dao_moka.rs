//! The capacity-bounded cache store: its settings, the expiry arithmetic of
//! its entries and its key search.
use vstd::prelude::*;
use crate::dao::key_matches;
use crate::text::{views, text_lt, text_less, starts_with, contains_str, lemma_lt_irreflexive, lemma_lt_transitive};

verus! {

/// Settings of the capacity-bounded cache store: the most entries it keeps,
/// unbounded when unset.
pub struct SaTokenDaoMokaBuilder {
    max_capacity: Option<u64>,
}

impl Default for SaTokenDaoMokaBuilder {
    fn default() -> (r: Self)
        ensures
            r.capacity_limit() is None,
    {
        SaTokenDaoMokaBuilder { max_capacity: None }
    }
}

impl SaTokenDaoMokaBuilder {
    /// The most entries the store keeps, when bounded.
    pub closed spec fn capacity_limit(&self) -> Option<u64> {
        self.max_capacity
    }

    /// The same settings with at most `cap` entries.
    pub fn max_capacity(self, cap: u64) -> (r: Self)
        ensures
            r.capacity_limit() == Some(cap),
    {
        SaTokenDaoMokaBuilder { max_capacity: Some(cap) }
    }

    /// The most entries the store keeps, when bounded.
    pub fn capacity(&self) -> (r: Option<u64>)
        ensures
            r == self.capacity_limit(),
    {
        self.max_capacity
    }
}

/// The moment, in milliseconds, at which a value stored at `now_ms` for
/// `timeout` seconds expires: never (`None`) for a negative timeout; a
/// timeout of zero expires at once.
pub open spec fn deadline_of(timeout: i64, now_ms: i64) -> Option<int> {
    if timeout < 0 { None } else { Some(now_ms + timeout * 1000) }
}

/// Whether the expiry moment of a value stored now for `timeout` seconds
/// fits in an `i64` (see [`timeout_to_deadline_ms`]).
pub fn deadline_fits(timeout: i64, now_ms: i64) -> (r: bool)
    ensures
        r == (timeout < 0 || i64::MIN <= now_ms + timeout * 1000 <= i64::MAX),
{
    if timeout < 0 {
        return true;
    }
    let d: i128 = now_ms as i128 + (timeout as i128) * 1000;
    i64::MIN as i128 <= d && d <= i64::MAX as i128
}

/// The expiry moment of a value stored now (see [`deadline_of`]).
pub fn timeout_to_deadline_ms(timeout: i64, now_ms: i64) -> (r: Option<i64>)
    requires
        timeout < 0 || i64::MIN <= now_ms + timeout * 1000 <= i64::MAX,
    ensures
        match deadline_of(timeout, now_ms) {
            Some(d) => r == Some(d as i64),
            None => r is None,
        },
{
    if timeout < 0 {
        None
    } else {
        let d: i128 = now_ms as i128 + (timeout as i128) * 1000;
        Some(d as i64)
    }
}

/// Whether a value with this expiry moment has expired at `now_ms`: never
/// without one, from the moment on otherwise.
pub fn entry_expired(deadline: Option<i64>, now_ms: i64) -> (r: bool)
    ensures
        r == match deadline {
            Some(d) => now_ms >= d,
            None => false,
        },
{
    match deadline {
        Some(d) => now_ms >= d,
        None => false,
    }
}

/// Whole seconds left before the expiry moment at `now_ms`: -1 without one,
/// 0 once it has passed.
pub fn seconds_left(deadline: Option<i64>, now_ms: i64) -> (r: i64)
    ensures
        r == match deadline {
            Some(d) => if d - now_ms >= 0 { ((d - now_ms) / 1000) as i64 } else { 0i64 },
            None => -1i64,
        },
{
    match deadline {
        Some(d) => {
            let diff: i128 = d as i128 - now_ms as i128;
            if diff >= 0 {
                (diff / 1000) as i64
            } else {
                0
            }
        },
        None => -1,
    }
}

/// Texts in dictionary order, equal texts allowed side by side.
pub open spec fn nondecreasing(l: Seq<Seq<char>>) -> bool {
    forall|i: int, j: int| 0 <= i < j < l.len() ==> !text_lt(#[trigger] l[j], #[trigger] l[i])
}

/// The keys that meet a search (see [`key_matches`]), in their order.
pub open spec fn matching(keys: Seq<Seq<char>>, prefix: Seq<char>, keyword: Seq<char>) -> Seq<Seq<char>>
    decreases keys.len(),
{
    if keys.len() == 0 {
        Seq::empty()
    } else if key_matches(keys.last(), prefix, keyword) {
        matching(keys.drop_last(), prefix, keyword).push(keys.last())
    } else {
        matching(keys.drop_last(), prefix, keyword)
    }
}

/// The items of a list from position `start` (0 when negative): `size` of
/// them at most, or all the rest when `size` is negative; none when
/// `start` lies beyond the end.
pub open spec fn span<T>(l: Seq<T>, start: i64, size: i64) -> Seq<T> {
    let s: int = if start < 0 { 0 } else { start as int };
    let e: int = if size < 0 { l.len() as int } else if s + size < l.len() { s + size } else { l.len() as int };
    if s >= e { Seq::empty() } else { l.subrange(s, e) }
}

/// Inserts a text into a list in dictionary order after the texts that do
/// not come after it, keeping the order.
fn insert_after_equals(v: &mut Vec<String>, x: String)
    requires
        nondecreasing(views(old(v)@)),
    ensures
        nondecreasing(views(final(v)@)),
        views(final(v)@).to_multiset() == views(old(v)@).to_multiset().insert(x@),
{
    let ghost old_v = views(v@);
    let mut p: usize = 0;
    let mut done = false;
    while !done && p < v.len()
        invariant
            views(v@) == old_v,
            nondecreasing(old_v),
            p <= old_v.len(),
            forall|k: int| 0 <= k < p ==> !text_lt(x@, #[trigger] old_v[k]),
            done ==> p < old_v.len() && text_lt(x@, old_v[p as int]),
        decreases old_v.len() - p + (if done { 0int } else { 1int }),
    {
        proof {
            assert(old_v[p as int] == v@[p as int]@);
        }
        if text_less(x.as_str(), v[p].as_str()) {
            done = true;
        } else {
            p += 1;
        }
    }
    let ghost xv = x@;
    v.insert(p, x);
    let ghost new_v = views(v@);
    proof {
        assert(new_v =~= old_v.insert(p as int, xv));
        assert forall|i: int, j: int| 0 <= i < j < new_v.len() implies !text_lt(#[trigger] new_v[j], #[trigger] new_v[i]) by {
            if j < p {
                assert(new_v[i] == old_v[i] && new_v[j] == old_v[j]);
            } else if j == p {
                assert(new_v[i] == old_v[i]);
            } else if i < p {
                assert(new_v[i] == old_v[i] && new_v[j] == old_v[j - 1]);
            } else if i == p {
                assert(new_v[j] == old_v[j - 1]);
                assert(done);
                if text_lt(old_v[j - 1], xv) {
                    lemma_lt_transitive(old_v[j - 1], xv, old_v[p as int], 0);
                    if j - 1 == p {
                        lemma_lt_irreflexive(old_v[p as int], 0);
                    }
                }
            } else {
                assert(new_v[i] == old_v[i - 1] && new_v[j] == old_v[j - 1]);
            }
        }
        vstd::seq_lib::to_multiset_insert(old_v, p as int, xv);
    }
}

/// The keys that meet a search, in dictionary order (`sort_type`) or the
/// reverse, from position `start`, `size` of them or all the rest (see
/// [`span`]); a key listed twice is found twice.
pub fn search_key_list(keys: &Vec<String>, prefix: &str, keyword: &str, start: i64, size: i64, sort_type: bool) -> (r: Vec<String>)
    ensures
        exists|l: Seq<Seq<char>>| #[trigger] nondecreasing(l)
            && l.to_multiset() == matching(views(keys@), prefix@, keyword@).to_multiset()
            && views(r@) == span(if sort_type { l } else { l.reverse() }, start, size),
{
    let ghost ks = views(keys@);
    let mut sorted: Vec<String> = Vec::new();
    let mut i: usize = 0;
    proof {
        assert(ks.subrange(0, 0) =~= Seq::<Seq<char>>::empty());
        assert(views(sorted@) =~= Seq::<Seq<char>>::empty());
        assert(matching(ks.subrange(0, 0), prefix@, keyword@) =~= Seq::<Seq<char>>::empty());
    }
    while i < keys.len()
        invariant
            ks == views(keys@),
            i <= ks.len(),
            nondecreasing(views(sorted@)),
            views(sorted@).to_multiset() == matching(ks.subrange(0, i as int), prefix@, keyword@).to_multiset(),
        decreases ks.len() - i,
    {
        let k = &keys[i];
        proof {
            assert(ks.subrange(0, i + 1).drop_last() =~= ks.subrange(0, i as int));
            assert(ks.subrange(0, i + 1).last() == k@);
        }
        if starts_with(k.as_str(), prefix) && (keyword.is_empty() || contains_str(k.as_str(), keyword)) {
            insert_after_equals(&mut sorted, k.clone());
            proof {
                vstd::seq_lib::to_multiset_build(matching(ks.subrange(0, i as int), prefix@, keyword@), k@);
            }
        }
        i += 1;
    }
    assert(ks.subrange(0, ks.len() as int) =~= ks);
    let ghost l = views(sorted@);
    let mut ordered: Vec<String> = Vec::new();
    if sort_type {
        ordered = sorted;
    } else {
        let mut j: usize = sorted.len();
        while j > 0
            invariant
                j <= sorted@.len(),
                views(sorted@) == l,
                views(ordered@) == l.reverse().subrange(0, l.len() - j),
            decreases j,
        {
            j -= 1;
            let ghost before = views(ordered@);
            ordered.push(sorted[j].clone());
            proof {
                assert(views(ordered@) =~= before.push(l[j as int]));
                assert(l.reverse()[l.len() - j - 1] == l[j as int]);
                assert(views(ordered@) =~= l.reverse().subrange(0, l.len() - j));
            }
        }
        assert(l.reverse().subrange(0, l.len() as int) =~= l.reverse());
    }
    let ghost o = if sort_type { l } else { l.reverse() };
    assert(views(ordered@) == o);
    let n = ordered.len();
    let s: usize = if start <= 0 { 0 } else if (start as u128) >= (n as u128) { n } else { start as usize };
    let e: usize = if size < 0 {
        n
    } else if (s as u128) + (size as u128) >= (n as u128) {
        n
    } else {
        ((s as u128) + (size as u128)) as usize
    };
    let mut out: Vec<String> = Vec::new();
    let mut k: usize = s;
    while k < e
        invariant
            s <= k <= e <= n,
            n == ordered@.len(),
            views(ordered@) == o,
            views(out@) == o.subrange(s as int, k as int),
        decreases e - k,
    {
        let ghost before = views(out@);
        out.push(ordered[k].clone());
        proof {
            assert(views(out@) =~= before.push(o[k as int]));
            assert(views(out@) =~= o.subrange(s as int, k + 1));
        }
        k += 1;
    }
    proof {
        assert(views(out@) =~= span(o, start, size));
    }
    out
}

} // verus!
