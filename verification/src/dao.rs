//! The in-memory data access object: strings, JSON objects and sessions,
//! each stored under a key with an expiry moment.
use vstd::prelude::*;
use crate::json::JsonValue;
use crate::session::{SaSession, SessionModel};
use crate::store::{ExpiringStore, is_expired};
use crate::text::{views, text_lt, text_less, has_prefix, has_infix, starts_with, contains_str, lemma_lt_irreflexive, lemma_lt_transitive, lemma_text_lt_total};

verus! {

/// Expiry moment of a value stored at `now` for `timeout` seconds; a
/// timeout of zero or less never expires (-1).
pub open spec fn expire_moment(timeout: i64, now: i64) -> i64 {
    if timeout <= 0 {
        -1i64
    } else {
        (now + timeout) as i64
    }
}

/// `timeout` seconds after `now` is a representable moment.
pub open spec fn fits(now: i64, timeout: i64) -> bool {
    timeout <= 0 || now + timeout <= i64::MAX
}

/// The value under the key, if present and not expired at `now`.
pub open spec fn live_value<V>(m: Map<Seq<char>, (V, i64)>, k: Seq<char>, now: i64) -> Option<V> {
    if m.contains_key(k) && !is_expired(m[k].1, now) {
        Some(m[k].0)
    } else {
        None
    }
}

/// Seconds left for the key at `now`: -1 when it never expires, -2 when it
/// is absent or expired.
pub open spec fn remaining<V>(m: Map<Seq<char>, (V, i64)>, k: Seq<char>, now: i64) -> i64 {
    if m.contains_key(k) && !is_expired(m[k].1, now) {
        if m[k].1 < 0 {
            -1i64
        } else {
            (m[k].1 - now) as i64
        }
    } else {
        -2i64
    }
}

/// The value under the key with its expiry moment replaced, when present.
pub open spec fn with_expire<V>(m: Map<Seq<char>, (V, i64)>, k: Seq<char>, e: i64) -> Map<Seq<char>, (V, i64)> {
    if m.contains_key(k) {
        m.insert(k, (m[k].0, e))
    } else {
        m
    }
}

/// The key's value replaced, its expiry moment kept, when present.
pub open spec fn with_value<V>(m: Map<Seq<char>, (V, i64)>, k: Seq<char>, v: V) -> Map<Seq<char>, (V, i64)> {
    if m.contains_key(k) {
        m.insert(k, (v, m[k].1))
    } else {
        m
    }
}

/// A value stored at `now` reads back at `now`, with the whole lifetime
/// left (-1 for a lifetime of zero or less).
pub proof fn lemma_read_after_write<V>(m: Map<Seq<char>, (V, i64)>, k: Seq<char>, v: V, timeout: i64, now: i64)
    requires
        now >= 0,
        fits(now, timeout),
    ensures
        live_value(m.insert(k, (v, expire_moment(timeout, now))), k, now) == Some(v),
        remaining(m.insert(k, (v, expire_moment(timeout, now))), k, now) == (if timeout > 0 { timeout } else { -1i64 }),
{
}

/// A value stored for `timeout > 0` seconds reads back until `now + timeout`
/// and not after.
pub proof fn lemma_expiry<V>(m: Map<Seq<char>, (V, i64)>, k: Seq<char>, v: V, timeout: i64, now: i64, later: i64)
    requires
        now >= 0,
        timeout > 0,
        fits(now, timeout),
        later >= now,
    ensures
        (live_value(m.insert(k, (v, expire_moment(timeout, now))), k, later) is Some) == (later <= now + timeout),
{
}

/// A removed key reads as absent, with -2 seconds left.
pub proof fn lemma_read_after_delete<V>(m: Map<Seq<char>, (V, i64)>, k: Seq<char>, now: i64)
    ensures
        live_value(m.remove(k), k, now) is None,
        remaining(m.remove(k), k, now) == -2,
{
}

/// Replacing a value keeps its lifetime: what reads back is the new value
/// exactly when the old one was live.
pub proof fn lemma_update_keeps_lifetime<V>(m: Map<Seq<char>, (V, i64)>, k: Seq<char>, v: V, now: i64)
    ensures
        remaining(with_value(m, k, v), k, now) == remaining(m, k, now),
        live_value(with_value(m, k, v), k, now) == (if live_value(m, k, now) is Some { Some(v) } else { None::<V> }),
{
}

/// Writes and removals under one key leave every other key as it was.
pub proof fn lemma_other_keys<V>(m: Map<Seq<char>, (V, i64)>, k: Seq<char>, other: Seq<char>, v: (V, i64), now: i64)
    requires
        k != other,
    ensures
        live_value(m.insert(k, v), other, now) == live_value(m, other, now),
        live_value(m.remove(k), other, now) == live_value(m, other, now),
{
}

/// Texts in strictly increasing dictionary order.
pub open spec fn ascending(l: Seq<Seq<char>>) -> bool {
    forall|i: int, j: int| 0 <= i < j < l.len() ==> text_lt(#[trigger] l[i], #[trigger] l[j])
}

/// Whether a key meets a search: it begins with the prefix and holds the
/// keyword, when one is given.
pub open spec fn key_matches(k: Seq<char>, prefix: Seq<char>, keyword: Seq<char>) -> bool {
    has_prefix(k, prefix) && (keyword.len() == 0 || has_infix(k, keyword))
}

/// The keys of the strings a search finds: those that meet it and expire
/// after `now` or never.
pub open spec fn search_matches(m: Map<Seq<char>, (Seq<char>, i64)>, prefix: Seq<char>, keyword: Seq<char>, now: i64) -> Set<Seq<char>> {
    Set::new(|k: Seq<char>| m.contains_key(k) && (m[k].1 < 0 || m[k].1 > now) && key_matches(k, prefix, keyword))
}

/// The items of a list from position `start` (0 when negative), at most
/// `size` of them (none when negative).
pub open spec fn page<T>(l: Seq<T>, start: i64, size: i64) -> Seq<T> {
    let s: int = if start < 0 { 0 } else { start as int };
    let z: int = if size < 0 { 0 } else { size as int };
    if s >= l.len() {
        Seq::empty()
    } else if s + z < l.len() {
        l.subrange(s, s + z)
    } else {
        l.subrange(s, l.len() as int)
    }
}

/// A list in strictly increasing order is fixed by its elements: the
/// answer of [`SaTokenDaoMemory::search_data`] is determined.
pub proof fn lemma_ascending_unique(l1: Seq<Seq<char>>, l2: Seq<Seq<char>>)
    requires
        ascending(l1),
        ascending(l2),
        l1.to_set() == l2.to_set(),
    ensures
        l1 == l2,
    decreases l1.len(),
{
    if l1.len() == 0 {
        if l2.len() > 0 {
            assert(l2.to_set().contains(l2[0]));
        }
        assert(l1 =~= l2);
    } else if l2.len() == 0 {
        assert(l1.to_set().contains(l1[0]));
    } else {
        let a = l1[0];
        let b = l2[0];
        if a != b {
            assert(l1.to_set().contains(a));
            assert(l2.contains(a));
            let j = choose|j: int| 0 <= j < l2.len() && l2[j] == a;
            assert(l2.to_set().contains(b));
            assert(l1.contains(b));
            let i = choose|i: int| 0 <= i < l1.len() && l1[i] == b;
            assert(j > 0 && i > 0);
            assert(text_lt(l2[0], l2[j]));
            assert(text_lt(l1[0], l1[i]));
            lemma_lt_transitive(a, b, a, 0);
            lemma_lt_irreflexive(a, 0);
        }
        let r1 = l1.drop_first();
        let r2 = l2.drop_first();
        assert forall|e: Seq<char>| r1.to_set().contains(e) == r2.to_set().contains(e) by {
            if r1.contains(e) {
                let i = choose|i: int| 0 <= i < r1.len() && r1[i] == e;
                assert(l1[i + 1] == e);
                assert(l1.to_set().contains(e));
                assert(l2.contains(e));
                let j = choose|j: int| 0 <= j < l2.len() && l2[j] == e;
                if j == 0 {
                    assert(text_lt(l1[0], l1[i + 1]));
                    lemma_lt_irreflexive(a, 0);
                }
                assert(r2[j - 1] == e);
            }
            if r2.contains(e) {
                let j = choose|j: int| 0 <= j < r2.len() && r2[j] == e;
                assert(l2[j + 1] == e);
                assert(l2.to_set().contains(e));
                assert(l1.contains(e));
                let i = choose|i: int| 0 <= i < l1.len() && l1[i] == e;
                if i == 0 {
                    assert(text_lt(l2[0], l2[j + 1]));
                    lemma_lt_irreflexive(b, 0);
                }
                assert(r1[i - 1] == e);
            }
        }
        assert(r1.to_set() =~= r2.to_set());
        assert forall|i: int, j: int| 0 <= i < j < r1.len() implies text_lt(#[trigger] r1[i], #[trigger] r1[j]) by {
            assert(l1[i + 1] == r1[i] && l1[j + 1] == r1[j]);
        }
        assert forall|i: int, j: int| 0 <= i < j < r2.len() implies text_lt(#[trigger] r2[i], #[trigger] r2[j]) by {
            assert(l2[i + 1] == r2[i] && l2[j + 1] == r2[j]);
        }
        lemma_ascending_unique(r1, r2);
        assert(l1 =~= l2) by {
            assert forall|k: int| 0 <= k < l1.len() implies l1[k] == l2[k] by {
                if k > 0 {
                    assert(l1[k] == r1[k - 1] && l2[k] == r2[k - 1]);
                }
            }
        }
    }
}

/// A page of no items (size 0 or negative) is empty, whatever the list.
pub proof fn lemma_empty_page<T>(l: Seq<T>, start: i64, size: i64)
    requires
        size <= 0,
    ensures
        page(l, start, size).len() == 0,
{
}

/// Inserts a text that a list in increasing order lacks, keeping the order.
fn insert_in_order(v: &mut Vec<String>, x: String)
    requires
        ascending(views(old(v)@)),
        !views(old(v)@).contains(x@),
    ensures
        ascending(views(final(v)@)),
        forall|e: Seq<char>| #![auto] views(final(v)@).contains(e) <==> (views(old(v)@).contains(e) || e == x@),
{
    let ghost old_v = views(v@);
    let mut p: usize = 0;
    let mut done = false;
    while !done && p < v.len()
        invariant
            views(v@) == old_v,
            ascending(old_v),
            !old_v.contains(x@),
            p <= old_v.len(),
            forall|k: int| 0 <= k < p ==> text_lt(#[trigger] old_v[k], x@),
            done ==> p < old_v.len() && text_lt(x@, old_v[p as int]),
        decreases old_v.len() - p + (if done { 0int } else { 1int }),
    {
        if text_less(x.as_str(), v[p].as_str()) {
            done = true;
        } else {
            proof {
                assert(old_v[p as int] == v@[p as int]@);
                if x@ == old_v[p as int] {
                    assert(old_v.contains(x@));
                }
                lemma_text_lt_total(x@, old_v[p as int]);
            }
            p += 1;
        }
    }
    let ghost xv = x@;
    v.insert(p, x);
    let ghost new_v = views(v@);
    proof {
        assert(new_v =~= old_v.insert(p as int, xv));
        assert forall|i: int, j: int| 0 <= i < j < new_v.len() implies text_lt(#[trigger] new_v[i], #[trigger] new_v[j]) by {
            if j < p {
                assert(new_v[i] == old_v[i] && new_v[j] == old_v[j]);
            } else if j == p {
                assert(new_v[i] == old_v[i]);
            } else if i < p {
                assert(new_v[i] == old_v[i] && new_v[j] == old_v[j - 1]);
            } else if i == p {
                assert(new_v[j] == old_v[j - 1]);
                assert(done);
                if j - 1 > p {
                    assert(text_lt(old_v[p as int], old_v[j - 1]));
                    lemma_lt_transitive(xv, old_v[p as int], old_v[j - 1], 0);
                }
            } else {
                assert(new_v[i] == old_v[i - 1] && new_v[j] == old_v[j - 1]);
            }
        }
        assert forall|e: Seq<char>| #![auto] new_v.contains(e) <==> (old_v.contains(e) || e == xv) by {
            if new_v.contains(e) {
                let k = choose|k: int| 0 <= k < new_v.len() && new_v[k] == e;
                if k < p {
                    assert(old_v[k] == e);
                } else if k > p {
                    assert(old_v[k - 1] == e);
                }
            }
            if old_v.contains(e) {
                let k = choose|k: int| 0 <= k < old_v.len() && old_v[k] == e;
                if k < p {
                    assert(new_v[k] == e);
                } else {
                    assert(new_v[k + 1] == e);
                }
            }
            if e == xv {
                assert(new_v[p as int] == e);
            }
        }
    }
}

/// The three stores of the data access object.
pub struct DaoModel {
    pub strings: Map<Seq<char>, (Seq<char>, i64)>,
    pub objects: Map<Seq<char>, (JsonValue, i64)>,
    pub sessions: Map<Seq<char>, (SessionModel, i64)>,
}

/// In-memory data access object.
pub struct SaTokenDaoMemory {
    data: ExpiringStore<String>,
    object_data: ExpiringStore<JsonValue>,
    session_data: ExpiringStore<SaSession>,
}

impl View for SaTokenDaoMemory {
    type V = DaoModel;

    closed spec fn view(&self) -> DaoModel {
        DaoModel {
            strings: self.data.view().map_values(|p: (String, i64)| (p.0@, p.1)),
            objects: self.object_data.view(),
            sessions: self.session_data.view().map_values(|p: (SaSession, i64)| (p.0@, p.1)),
        }
    }
}

impl SaTokenDaoMemory {
    /// Internal consistency of the stores.
    pub closed spec fn wf(&self) -> bool {
        self.data.wf() && self.object_data.wf() && self.session_data.wf()
    }

    /// An empty object.
    pub fn new() -> (r: Self)
        ensures
            r.wf(),
            r@.strings == Map::<Seq<char>, (Seq<char>, i64)>::empty(),
            r@.objects == Map::<Seq<char>, (JsonValue, i64)>::empty(),
            r@.sessions == Map::<Seq<char>, (SessionModel, i64)>::empty(),
    {
        let r = SaTokenDaoMemory {
            data: ExpiringStore::new(),
            object_data: ExpiringStore::new(),
            session_data: ExpiringStore::new(),
        };
        assert(r@.strings =~= Map::<Seq<char>, (Seq<char>, i64)>::empty());
        assert(r@.sessions =~= Map::<Seq<char>, (SessionModel, i64)>::empty());
        r
    }

    fn calc_expire_time(timeout: i64, now: i64) -> (r: i64)
        requires
            fits(now, timeout),
        ensures
            r == expire_moment(timeout, now),
    {
        if timeout <= 0 {
            -1
        } else {
            now + timeout
        }
    }

    fn seconds_left(expire_time: i64, now: i64) -> (r: i64)
        requires
            now >= 0,
        ensures
            !is_expired(expire_time, now) ==> r == (if expire_time < 0 { -1i64 } else { (expire_time - now) as i64 }),
            is_expired(expire_time, now) ==> r == -2,
    {
        if expire_time >= 0 && now > expire_time {
            -2
        } else if expire_time < 0 {
            -1
        } else {
            expire_time - now
        }
    }

    // ---------- strings ----------

    /// The string under the key, if present and not expired.
    pub fn get(&self, key: &str, now: i64) -> (r: Option<String>)
        requires
            self.wf(),
        ensures
            match live_value(self@.strings, key@, now) {
                Some(v) => r is Some && r->0@ == v,
                None => r is None,
            },
    {
        match self.data.get_entry(key) {
            Some((v, e)) => {
                if e >= 0 && now > e {
                    None
                } else {
                    Some(v.clone())
                }
            },
            None => None,
        }
    }

    /// Stores the string for `timeout` seconds (zero or less: forever).
    pub fn set(&mut self, key: &str, value: &str, timeout: i64, now: i64)
        requires
            old(self).wf(),
            fits(now, timeout),
        ensures
            final(self).wf(),
            final(self)@ == (DaoModel {
                strings: old(self)@.strings.insert(key@, (value@, expire_moment(timeout, now))),
                ..old(self)@
            }),
    {
        let e = Self::calc_expire_time(timeout, now);
        self.data.put(key, value.to_owned(), e);
        assert(self@.strings =~= old(self)@.strings.insert(key@, (value@, expire_moment(timeout, now))));
    }

    /// Replaces the string and keeps its expiry; nothing when absent.
    pub fn update(&mut self, key: &str, value: &str)
        requires
            old(self).wf(),
        ensures
            final(self).wf(),
            final(self)@ == (DaoModel { strings: with_value(old(self)@.strings, key@, value@), ..old(self)@ }),
    {
        self.data.update_value(key, value.to_owned());
        assert(self@.strings =~= with_value(old(self)@.strings, key@, value@));
    }

    /// Removes the string.
    pub fn delete(&mut self, key: &str)
        requires
            old(self).wf(),
        ensures
            final(self).wf(),
            final(self)@ == (DaoModel { strings: old(self)@.strings.remove(key@), ..old(self)@ }),
    {
        self.data.remove(key);
        assert(self@.strings =~= old(self)@.strings.remove(key@));
    }

    /// Seconds left for the string: -1 forever, -2 absent or expired.
    pub fn get_timeout(&self, key: &str, now: i64) -> (r: i64)
        requires
            self.wf(),
            now >= 0,
        ensures
            r == remaining(self@.strings, key@, now),
    {
        match self.data.get_entry(key) {
            Some((_, e)) => Self::seconds_left(e, now),
            None => -2,
        }
    }

    /// Gives the string a new lifetime counted from `now`; nothing when absent.
    pub fn update_timeout(&mut self, key: &str, timeout: i64, now: i64)
        requires
            old(self).wf(),
            fits(now, timeout),
        ensures
            final(self).wf(),
            final(self)@ == (DaoModel {
                strings: with_expire(old(self)@.strings, key@, expire_moment(timeout, now)),
                ..old(self)@
            }),
    {
        let e = Self::calc_expire_time(timeout, now);
        self.data.update_expire(key, e);
        assert(self@.strings =~= with_expire(old(self)@.strings, key@, expire_moment(timeout, now)));
    }

    // ---------- objects ----------

    /// The object under the key, if present and not expired.
    pub fn get_object(&self, key: &str, now: i64) -> (r: Option<JsonValue>)
        requires
            self.wf(),
        ensures
            r == live_value(self@.objects, key@, now),
    {
        match self.object_data.get_entry(key) {
            Some((v, e)) => {
                if e >= 0 && now > e {
                    None
                } else {
                    Some(v.copy())
                }
            },
            None => None,
        }
    }

    /// Stores the object for `timeout` seconds (zero or less: forever).
    pub fn set_object(&mut self, key: &str, value: JsonValue, timeout: i64, now: i64)
        requires
            old(self).wf(),
            fits(now, timeout),
        ensures
            final(self).wf(),
            final(self)@ == (DaoModel {
                objects: old(self)@.objects.insert(key@, (value, expire_moment(timeout, now))),
                ..old(self)@
            }),
    {
        let e = Self::calc_expire_time(timeout, now);
        self.object_data.put(key, value, e);
    }

    /// Replaces the object and keeps its expiry; nothing when absent.
    pub fn update_object(&mut self, key: &str, value: JsonValue)
        requires
            old(self).wf(),
        ensures
            final(self).wf(),
            final(self)@ == (DaoModel { objects: with_value(old(self)@.objects, key@, value), ..old(self)@ }),
    {
        self.object_data.update_value(key, value);
    }

    /// Removes the object.
    pub fn delete_object(&mut self, key: &str)
        requires
            old(self).wf(),
        ensures
            final(self).wf(),
            final(self)@ == (DaoModel { objects: old(self)@.objects.remove(key@), ..old(self)@ }),
    {
        self.object_data.remove(key);
    }

    /// Seconds left for the object: -1 forever, -2 absent or expired.
    pub fn get_object_timeout(&self, key: &str, now: i64) -> (r: i64)
        requires
            self.wf(),
            now >= 0,
        ensures
            r == remaining(self@.objects, key@, now),
    {
        match self.object_data.get_entry(key) {
            Some((_, e)) => Self::seconds_left(e, now),
            None => -2,
        }
    }

    /// Gives the object a new lifetime counted from `now`; nothing when absent.
    pub fn update_object_timeout(&mut self, key: &str, timeout: i64, now: i64)
        requires
            old(self).wf(),
            fits(now, timeout),
        ensures
            final(self).wf(),
            final(self)@ == (DaoModel {
                objects: with_expire(old(self)@.objects, key@, expire_moment(timeout, now)),
                ..old(self)@
            }),
    {
        let e = Self::calc_expire_time(timeout, now);
        self.object_data.update_expire(key, e);
    }

    // ---------- sessions ----------

    /// A copy of the session under the id, if present and not expired.
    pub fn get_session(&self, session_id: &str, now: i64) -> (r: Option<SaSession>)
        requires
            self.wf(),
        ensures
            match live_value(self@.sessions, session_id@, now) {
                Some(v) => r is Some && r->0@ == v,
                None => r is None,
            },
    {
        match self.session_data.get_entry(session_id) {
            Some((v, e)) => {
                if e >= 0 && now > e {
                    None
                } else {
                    Some(v.clone())
                }
            },
            None => None,
        }
    }

    /// Stores a copy of the session under its id for `timeout` seconds.
    pub fn set_session(&mut self, session: &SaSession, timeout: i64, now: i64)
        requires
            old(self).wf(),
            fits(now, timeout),
        ensures
            final(self).wf(),
            final(self)@ == (DaoModel {
                sessions: old(self)@.sessions.insert(session@.id, (session@, expire_moment(timeout, now))),
                ..old(self)@
            }),
    {
        let e = Self::calc_expire_time(timeout, now);
        self.session_data.put(session.id(), session.clone(), e);
        assert(self@.sessions =~= old(self)@.sessions.insert(session@.id, (session@, expire_moment(timeout, now))));
    }

    /// Replaces the stored session with the same id, keeping its expiry;
    /// nothing when absent.
    pub fn update_session(&mut self, session: &SaSession)
        requires
            old(self).wf(),
        ensures
            final(self).wf(),
            final(self)@ == (DaoModel { sessions: with_value(old(self)@.sessions, session@.id, session@), ..old(self)@ }),
    {
        self.session_data.update_value(session.id(), session.clone());
        assert(self@.sessions =~= with_value(old(self)@.sessions, session@.id, session@));
    }

    /// Removes the session.
    pub fn delete_session(&mut self, session_id: &str)
        requires
            old(self).wf(),
        ensures
            final(self).wf(),
            final(self)@ == (DaoModel { sessions: old(self)@.sessions.remove(session_id@), ..old(self)@ }),
    {
        self.session_data.remove(session_id);
        assert(self@.sessions =~= old(self)@.sessions.remove(session_id@));
    }

    /// Seconds left for the session: -1 forever, -2 absent or expired.
    pub fn get_session_timeout(&self, session_id: &str, now: i64) -> (r: i64)
        requires
            self.wf(),
            now >= 0,
        ensures
            r == remaining(self@.sessions, session_id@, now),
    {
        match self.session_data.get_entry(session_id) {
            Some((_, e)) => Self::seconds_left(e, now),
            None => -2,
        }
    }

    /// Gives the session a new lifetime counted from `now`; nothing when absent.
    pub fn update_session_timeout(&mut self, session_id: &str, timeout: i64, now: i64)
        requires
            old(self).wf(),
            fits(now, timeout),
        ensures
            final(self).wf(),
            final(self)@ == (DaoModel {
                sessions: with_expire(old(self)@.sessions, session_id@, expire_moment(timeout, now)),
                ..old(self)@
            }),
    {
        let e = Self::calc_expire_time(timeout, now);
        self.session_data.update_expire(session_id, e);
        assert(self@.sessions =~= with_expire(old(self)@.sessions, session_id@, expire_moment(timeout, now)));
    }
    // ---------- searching ----------

    /// The keys of the strings that begin with `prefix`, hold `keyword`
    /// (when not empty) and expire after `now` or never, in increasing
    /// dictionary order (`sort_type`) or decreasing, from position `start`,
    /// at most `size` of them (see [`page`]).
    pub fn search_data(&self, prefix: &str, keyword: &str, start: i64, size: i64, sort_type: bool, now: i64) -> (r: Vec<String>)
        requires
            self.wf(),
            now < i64::MAX,
        ensures
            exists|l: Seq<Seq<char>>| #[trigger] ascending(l)
                && l.to_set() == search_matches(self@.strings, prefix@, keyword@, now)
                && views(r@) == page(if sort_type { l } else { l.reverse() }, start, size),
    {
        let keys = self.data.live_keys(now + 1);
        let ghost ks = views(keys@);
        let mut sorted: Vec<String> = Vec::new();
        let mut i: usize = 0;
        while i < keys.len()
            invariant
                ks == views(keys@),
                ks.no_duplicates(),
                i <= ks.len(),
                ascending(views(sorted@)),
                forall|e: Seq<char>| #![auto] views(sorted@).contains(e) <==> (exists|j: int| 0 <= j < i && ks[j] == e)
                    && key_matches(e, prefix@, keyword@),
            decreases ks.len() - i,
        {
            let k = &keys[i];
            if starts_with(k.as_str(), prefix) && (keyword.is_empty() || contains_str(k.as_str(), keyword)) {
                proof {
                    assert(ks[i as int] == k@);
                    if views(sorted@).contains(k@) {
                        let j = choose|j: int| 0 <= j < i && ks[j] == k@;
                        assert(ks[j] == ks[i as int]);
                    }
                }
                let ghost before = views(sorted@);
                insert_in_order(&mut sorted, k.clone());
                proof {
                    assert forall|e: Seq<char>| #![auto] views(sorted@).contains(e) <==> (exists|j: int| 0 <= j < i + 1 && ks[j] == e)
                        && key_matches(e, prefix@, keyword@) by {
                        if exists|j: int| 0 <= j < i + 1 && ks[j] == e {
                            let j = choose|j: int| 0 <= j < i + 1 && ks[j] == e;
                            if j < i {
                                assert(exists|j: int| 0 <= j < i && ks[j] == e);
                            }
                        }
                        if before.contains(e) {
                            let j = choose|j: int| 0 <= j < i && ks[j] == e;
                            assert(0 <= j < i + 1 && ks[j] == e);
                        }
                        if e == k@ {
                            assert(ks[i as int] == e);
                        }
                    }
                }
            } else {
                proof {
                    assert(ks[i as int] == k@);
                    assert forall|e: Seq<char>| #![auto] views(sorted@).contains(e) <==> (exists|j: int| 0 <= j < i + 1 && ks[j] == e)
                        && key_matches(e, prefix@, keyword@) by {
                        if exists|j: int| 0 <= j < i + 1 && ks[j] == e {
                            let j = choose|j: int| 0 <= j < i + 1 && ks[j] == e;
                            if j < i {
                                assert(exists|j: int| 0 <= j < i && ks[j] == e);
                            }
                        }
                    }
                }
            }
            i += 1;
        }
        let ghost l = views(sorted@);
        proof {
            assert forall|e: Seq<char>| #![auto] l.to_set().contains(e) == search_matches(self@.strings, prefix@, keyword@, now).contains(e) by {
                if l.contains(e) {
                    let j = choose|j: int| 0 <= j < ks.len() && ks[j] == e;
                    assert(ks.contains(e));
                }
                if search_matches(self@.strings, prefix@, keyword@, now).contains(e) {
                    assert(ks.contains(e));
                    let j = choose|j: int| 0 <= j < ks.len() && ks[j] == e;
                    assert(exists|j: int| 0 <= j < i && ks[j] == e);
                }
            }
            assert(l.to_set() =~= search_matches(self@.strings, prefix@, keyword@, now));
        }
        let mut ordered: Vec<String> = Vec::new();
        if sort_type {
            ordered = sorted;
        } else {
            let mut j: usize = sorted.len();
            while j > 0
                invariant
                    j <= sorted@.len(),
                    views(sorted@) == l,
                    views(ordered@) == l.reverse().subrange(0, l.len() - j),
                decreases j,
            {
                j -= 1;
                let ghost before = views(ordered@);
                ordered.push(sorted[j].clone());
                proof {
                    assert(views(ordered@) =~= before.push(l[j as int]));
                    assert(l.reverse()[l.len() - j - 1] == l[j as int]);
                    assert(views(ordered@) =~= l.reverse().subrange(0, l.len() - j));
                }
            }
            assert(l.reverse().subrange(0, l.len() as int) =~= l.reverse());
        }
        let ghost o = if sort_type { l } else { l.reverse() };
        assert(views(ordered@) == o);
        let n = ordered.len();
        let s: usize = if start <= 0 { 0 } else if (start as u128) >= (n as u128) { n } else { start as usize };
        let z: u128 = if size <= 0 { 0 } else { size as u128 };
        let e: usize = if (s as u128) + z >= (n as u128) { n } else { ((s as u128) + z) as usize };
        let mut out: Vec<String> = Vec::new();
        let mut k: usize = s;
        while k < e
            invariant
                s <= k <= e <= n,
                n == ordered@.len(),
                views(ordered@) == o,
                views(out@) == o.subrange(s as int, k as int),
            decreases e - k,
        {
            let ghost before = views(out@);
            out.push(ordered[k].clone());
            proof {
                assert(views(out@) =~= before.push(o[k as int]));
                assert(views(out@) =~= o.subrange(s as int, k + 1));
            }
            k += 1;
        }
        proof {
            assert(views(out@) =~= page(o, start, size));
        }
        out
    }

}

} // verus!
