//! A map from string keys to values with an expiry moment, the storage
//! model behind the in-memory data access object.
use vstd::prelude::*;
use crate::text::{str_eq, views};

verus! {

/// One stored value with its key and its expiry moment (seconds since the
/// epoch; negative means it never expires).
pub struct StoreEntry<V> {
    pub key: String,
    pub value: V,
    pub expire_time: i64,
}

/// Entries with pairwise distinct keys.
pub struct ExpiringStore<V> {
    entries: Vec<StoreEntry<V>>,
}

/// Whether an entry with this expiry moment is expired at `now`.
pub open spec fn is_expired(expire_time: i64, now: i64) -> bool {
    expire_time >= 0 && now > expire_time
}

impl<V> ExpiringStore<V> {
    /// No two entries share a key.
    pub closed spec fn wf(&self) -> bool {
        forall|i: int, j: int|
            0 <= i < self.entries@.len() && 0 <= j < self.entries@.len() && i != j
                ==> #[trigger] self.entries@[i].key@ != #[trigger] self.entries@[j].key@
    }

    /// Key to (value, expiry moment), expired entries included.
    pub closed spec fn view(&self) -> Map<Seq<char>, (V, i64)> {
        Map::new(
            |k: Seq<char>| exists|i: int| 0 <= i < self.entries@.len() && self.entries@[i].key@ == k,
            |k: Seq<char>| {
                let i = choose|i: int| 0 <= i < self.entries@.len() && self.entries@[i].key@ == k;
                (self.entries@[i].value, self.entries@[i].expire_time)
            },
        )
    }

    /// An empty store.
    pub fn new() -> (r: Self)
        ensures
            r.wf(),
            r.view() == Map::<Seq<char>, (V, i64)>::empty(),
    {
        let r = ExpiringStore { entries: Vec::new() };
        assert(r.view() =~= Map::<Seq<char>, (V, i64)>::empty());
        r
    }

    proof fn lemma_view_at(&self, i: int)
        requires
            self.wf(),
            0 <= i < self.entries@.len(),
        ensures
            self.view().contains_key(self.entries@[i].key@),
            self.view()[self.entries@[i].key@] == (self.entries@[i].value, self.entries@[i].expire_time),
    {
        let k = self.entries@[i].key@;
        assert(self.view().dom().contains(k));
        let j = choose|j: int| 0 <= j < self.entries@.len() && self.entries@[j].key@ == k;
        assert(j == i);
    }

    /// Position of the entry with this key.
    fn find(&self, key: &str) -> (r: Option<usize>)
        requires
            self.wf(),
        ensures
            match r {
                Some(i) => i < self.entries@.len() && self.entries@[i as int].key@ == key@
                    && self.view().contains_key(key@)
                    && self.view()[key@] == (self.entries@[i as int].value, self.entries@[i as int].expire_time),
                None => !self.view().contains_key(key@),
            },
    {
        let mut i: usize = 0;
        while i < self.entries.len()
            invariant
                self.wf(),
                i <= self.entries@.len(),
                forall|j: int| 0 <= j < i ==> self.entries@[j].key@ != key@,
            decreases self.entries@.len() - i,
        {
            if str_eq(self.entries[i].key.as_str(), key) {
                proof {
                    self.lemma_view_at(i as int);
                }
                return Some(i);
            }
            i += 1;
        }
        None
    }

    /// The value and expiry moment stored under the key.
    pub fn get_entry(&self, key: &str) -> (r: Option<(&V, i64)>)
        requires
            self.wf(),
        ensures
            match r {
                Some((v, e)) => self.view().contains_key(key@) && self.view()[key@] == (*v, e),
                None => !self.view().contains_key(key@),
            },
    {
        match self.find(key) {
            Some(i) => Some((&self.entries[i].value, self.entries[i].expire_time)),
            None => None,
        }
    }

    /// Stores the value under the key, replacing what was there.
    pub fn put(&mut self, key: &str, value: V, expire_time: i64)
        requires
            old(self).wf(),
        ensures
            final(self).wf(),
            final(self).view() == old(self).view().insert(key@, (value, expire_time)),
    {
        let ghost old_view = self.view();
        match self.find(key) {
            Some(i) => {
                let ghost old_entries = self.entries@;
                let k: String = key.to_owned();
                self.entries.set(i, StoreEntry { key: k, value, expire_time });
                proof {
                    assert forall|a: int, b: int|
                        0 <= a < self.entries@.len() && 0 <= b < self.entries@.len() && a != b
                        implies #[trigger] self.entries@[a].key@ != #[trigger] self.entries@[b].key@ by {
                        assert(old_entries[a].key@ == self.entries@[a].key@);
                        assert(old_entries[b].key@ == self.entries@[b].key@);
                    }
                    assert forall|k2: Seq<char>| #![auto] self.view().contains_key(k2) == old_view.insert(key@, (value, expire_time)).contains_key(k2) by {
                        if self.view().contains_key(k2) {
                            let j = choose|j: int| 0 <= j < self.entries@.len() && self.entries@[j].key@ == k2;
                            if j != i {
                                assert(old_entries[j].key@ == k2);
                            }
                        }
                        if old_view.contains_key(k2) {
                            let j = choose|j: int| 0 <= j < old_entries.len() && old_entries[j].key@ == k2;
                            assert(self.entries@[j].key@ == k2);
                        }
                    }
                    assert forall|k2: Seq<char>| #![auto] self.view().contains_key(k2) implies self.view()[k2] == old_view.insert(key@, (value, expire_time))[k2] by {
                        let j = choose|j: int| 0 <= j < self.entries@.len() && self.entries@[j].key@ == k2;
                        self.lemma_view_at(j);
                        if j != i {
                            assert(old_entries[j].key@ == k2);
                            assert(old_entries[j] == self.entries@[j]);
                            assert(k2 != key@);
                        }
                    }
                    assert(self.view() =~= old_view.insert(key@, (value, expire_time)));
                }
            },
            None => {
                let ghost old_entries = self.entries@;
                let k: String = key.to_owned();
                self.entries.push(StoreEntry { key: k, value, expire_time });
                proof {
                    let n = old_entries.len();
                    assert forall|a: int, b: int|
                        0 <= a < self.entries@.len() && 0 <= b < self.entries@.len() && a != b
                        implies #[trigger] self.entries@[a].key@ != #[trigger] self.entries@[b].key@ by {
                        if a == n {
                            assert(!old_view.contains_key(key@));
                            assert(old_entries[b].key@ == self.entries@[b].key@);
                            if old_entries[b].key@ == key@ {
                                assert(old_view.contains_key(key@));
                            }
                        } else if b == n {
                            assert(old_entries[a].key@ == self.entries@[a].key@);
                            if old_entries[a].key@ == key@ {
                                assert(old_view.contains_key(key@));
                            }
                        } else {
                            assert(old_entries[a] == self.entries@[a]);
                            assert(old_entries[b] == self.entries@[b]);
                        }
                    }
                    assert forall|k2: Seq<char>| #![auto] self.view().contains_key(k2) == old_view.insert(key@, (value, expire_time)).contains_key(k2) by {
                        if self.view().contains_key(k2) {
                            let j = choose|j: int| 0 <= j < self.entries@.len() && self.entries@[j].key@ == k2;
                            if j != n {
                                assert(old_entries[j].key@ == k2);
                            }
                        }
                        if old_view.contains_key(k2) {
                            let j = choose|j: int| 0 <= j < old_entries.len() && old_entries[j].key@ == k2;
                            assert(self.entries@[j].key@ == k2);
                        }
                        if k2 == key@ {
                            assert(self.entries@[n as int].key@ == k2);
                        }
                    }
                    assert forall|k2: Seq<char>| #![auto] self.view().contains_key(k2) implies self.view()[k2] == old_view.insert(key@, (value, expire_time))[k2] by {
                        let j = choose|j: int| 0 <= j < self.entries@.len() && self.entries@[j].key@ == k2;
                        self.lemma_view_at(j);
                        if j != n {
                            assert(old_entries[j] == self.entries@[j]);
                            assert(k2 != key@);
                        }
                    }
                    assert(self.view() =~= old_view.insert(key@, (value, expire_time)));
                }
            },
        }
    }

    /// Removes the entry under the key, if any.
    pub fn remove(&mut self, key: &str)
        requires
            old(self).wf(),
        ensures
            final(self).wf(),
            final(self).view() == old(self).view().remove(key@),
    {
        let ghost old_view = self.view();
        match self.find(key) {
            Some(i) => {
                let ghost old_entries = self.entries@;
                self.entries.remove(i);
                proof {
                    assert forall|a: int, b: int|
                        0 <= a < self.entries@.len() && 0 <= b < self.entries@.len() && a != b
                        implies #[trigger] self.entries@[a].key@ != #[trigger] self.entries@[b].key@ by {
                        let oa = if a < i { a } else { a + 1 };
                        let ob = if b < i { b } else { b + 1 };
                        assert(old_entries[oa] == self.entries@[a]);
                        assert(old_entries[ob] == self.entries@[b]);
                    }
                    assert forall|k2: Seq<char>| #![auto] self.view().contains_key(k2) == old_view.remove(key@).contains_key(k2) by {
                        if self.view().contains_key(k2) {
                            let j = choose|j: int| 0 <= j < self.entries@.len() && self.entries@[j].key@ == k2;
                            let oj = if j < i { j } else { j + 1 };
                            assert(old_entries[oj] == self.entries@[j]);
                            assert(old_entries[i as int].key@ == key@);
                        }
                        if old_view.contains_key(k2) && k2 != key@ {
                            let j = choose|j: int| 0 <= j < old_entries.len() && old_entries[j].key@ == k2;
                            assert(j != i);
                            let nj = if j < i { j } else { j - 1 };
                            assert(self.entries@[nj] == old_entries[j]);
                        }
                    }
                    assert forall|k2: Seq<char>| #![auto] self.view().contains_key(k2) implies self.view()[k2] == old_view.remove(key@)[k2] by {
                        let j = choose|j: int| 0 <= j < self.entries@.len() && self.entries@[j].key@ == k2;
                        self.lemma_view_at(j);
                        let oj = if j < i { j } else { j + 1 };
                        assert(old_entries[oj] == self.entries@[j]);
                        assert(old_view.contains_key(k2));
                        let c = choose|c: int| 0 <= c < old_entries.len() && old_entries[c].key@ == k2;
                        assert(c == oj);
                    }
                    assert(self.view() =~= old_view.remove(key@));
                }
            },
            None => {
                assert(self.view() =~= old_view.remove(key@));
            },
        }
    }

    /// Replaces the value under the key and keeps its expiry moment; does
    /// nothing when the key is absent.
    pub fn update_value(&mut self, key: &str, value: V)
        requires
            old(self).wf(),
        ensures
            final(self).wf(),
            final(self).view() == (if old(self).view().contains_key(key@) {
                old(self).view().insert(key@, (value, old(self).view()[key@].1))
            } else {
                old(self).view()
            }),
    {
        match self.find(key) {
            Some(i) => {
                let e = self.entries[i].expire_time;
                self.put(key, value, e);
            },
            None => {},
        }
    }

    /// Sets the expiry moment of the entry under the key and keeps its value;
    /// does nothing when the key is absent.
    pub fn update_expire(&mut self, key: &str, expire_time: i64)
        requires
            old(self).wf(),
        ensures
            final(self).wf(),
            final(self).view() == (if old(self).view().contains_key(key@) {
                old(self).view().insert(key@, (old(self).view()[key@].0, expire_time))
            } else {
                old(self).view()
            }),
    {
        let ghost old_view = self.view();
        match self.find(key) {
            Some(i) => {
                let ghost old_entries = self.entries@;
                let entry = self.entries.remove(i);
                self.entries.insert(i, StoreEntry { key: entry.key, value: entry.value, expire_time });
                proof {
                    let ne = StoreEntry { key: entry.key, value: entry.value, expire_time };
                    assert(self.entries@ =~= old_entries.update(i as int, ne));
                    assert forall|a: int, b: int|
                        0 <= a < self.entries@.len() && 0 <= b < self.entries@.len() && a != b
                        implies #[trigger] self.entries@[a].key@ != #[trigger] self.entries@[b].key@ by {
                        assert(old_entries[a].key@ == self.entries@[a].key@);
                        assert(old_entries[b].key@ == self.entries@[b].key@);
                    }
                    let target = old_view.insert(key@, (entry.value, expire_time));
                    assert forall|k2: Seq<char>| #![auto] self.view().contains_key(k2) == target.contains_key(k2) by {
                        if self.view().contains_key(k2) {
                            let j = choose|j: int| 0 <= j < self.entries@.len() && self.entries@[j].key@ == k2;
                            assert(old_entries[j].key@ == k2);
                        }
                        if old_view.contains_key(k2) {
                            let j = choose|j: int| 0 <= j < old_entries.len() && old_entries[j].key@ == k2;
                            assert(self.entries@[j].key@ == k2);
                        }
                    }
                    assert forall|k2: Seq<char>| #![auto] self.view().contains_key(k2) implies self.view()[k2] == target[k2] by {
                        let j = choose|j: int| 0 <= j < self.entries@.len() && self.entries@[j].key@ == k2;
                        self.lemma_view_at(j);
                        if j != i {
                            assert(old_entries[j] == self.entries@[j]);
                            assert(k2 != key@);
                        }
                    }
                    assert(self.view() =~= target);
                }
            },
            None => {},
        }
    }

    /// The keys of the entries that are not expired at `now`, in storage order.
    pub fn live_keys(&self, now: i64) -> (r: Vec<String>)
        requires
            self.wf(),
        ensures
            forall|k: Seq<char>| #![auto] views(r@).contains(k) <==> (self.view().contains_key(k)
                && !is_expired(self.view()[k].1, now)),
            views(r@).no_duplicates(),
    {
        let mut r: Vec<String> = Vec::new();
        let mut i: usize = 0;
        while i < self.entries.len()
            invariant
                self.wf(),
                i <= self.entries@.len(),
                forall|k: Seq<char>| #![auto] views(r@).contains(k) <==> exists|j: int| 0 <= j < i
                    && self.entries@[j].key@ == k && !is_expired(self.entries@[j].expire_time, now),
                views(r@).no_duplicates(),
            decreases self.entries@.len() - i,
        {
            let ghost before = views(r@);
            if !(self.entries[i].expire_time >= 0 && now > self.entries[i].expire_time) {
                let k = self.entries[i].key.clone();
                r.push(k);
                proof {
                    assert(views(r@) =~= before.push(self.entries@[i as int].key@));
                    assert forall|a: int| 0 <= a < before.len() implies before[a] != self.entries@[i as int].key@ by {
                        assert(before.contains(before[a]));
                        let j = choose|j: int| 0 <= j < i
                            && self.entries@[j].key@ == before[a] && !is_expired(self.entries@[j].expire_time, now);
                        assert(j != i);
                    }
                    assert forall|k: Seq<char>| #![auto] views(r@).contains(k) <==> exists|j: int| 0 <= j < i + 1
                        && self.entries@[j].key@ == k && !is_expired(self.entries@[j].expire_time, now) by {
                        if views(r@).contains(k) && k != self.entries@[i as int].key@ {
                            assert(before.contains(k));
                        }
                        if exists|j: int| 0 <= j < i + 1
                            && self.entries@[j].key@ == k && !is_expired(self.entries@[j].expire_time, now) {
                            let j = choose|j: int| 0 <= j < i + 1
                                && self.entries@[j].key@ == k && !is_expired(self.entries@[j].expire_time, now);
                            if j < i {
                                assert(before.contains(k));
                                let a = choose|a: int| 0 <= a < before.len() && before[a] == k;
                                assert(views(r@)[a] == k);
                            } else {
                                assert(views(r@)[before.len() as int] == k);
                            }
                        }
                    }
                }
            } else {
                proof {
                    assert forall|k: Seq<char>| #![auto] views(r@).contains(k) <==> exists|j: int| 0 <= j < i + 1
                        && self.entries@[j].key@ == k && !is_expired(self.entries@[j].expire_time, now) by {
                        if exists|j: int| 0 <= j < i + 1
                            && self.entries@[j].key@ == k && !is_expired(self.entries@[j].expire_time, now) {
                            let j = choose|j: int| 0 <= j < i + 1
                                && self.entries@[j].key@ == k && !is_expired(self.entries@[j].expire_time, now);
                            assert(j < i);
                        }
                    }
                }
            }
            i += 1;
        }
        proof {
            assert forall|k: Seq<char>| #![auto] views(r@).contains(k) <==> (self.view().contains_key(k)
                && !is_expired(self.view()[k].1, now)) by {
                if views(r@).contains(k) {
                    let j = choose|j: int| 0 <= j < self.entries@.len()
                        && self.entries@[j].key@ == k && !is_expired(self.entries@[j].expire_time, now);
                    self.lemma_view_at(j);
                }
                if self.view().contains_key(k) && !is_expired(self.view()[k].1, now) {
                    let j = choose|j: int| 0 <= j < self.entries@.len() && self.entries@[j].key@ == k;
                    self.lemma_view_at(j);
                }
            }
        }
        r
    }
}

/// A map from strings to strings.
pub struct StrMap {
    inner: ExpiringStore<String>,
}

impl View for StrMap {
    type V = Map<Seq<char>, Seq<char>>;

    closed spec fn view(&self) -> Map<Seq<char>, Seq<char>> {
        self.inner.view().map_values(|p: (String, i64)| p.0@)
    }
}

impl StrMap {
    /// Internal consistency.
    pub closed spec fn wf(&self) -> bool {
        self.inner.wf()
    }

    /// An empty map.
    pub fn new() -> (r: Self)
        ensures
            r.wf(),
            r@ == Map::<Seq<char>, Seq<char>>::empty(),
    {
        let r = StrMap { inner: ExpiringStore::new() };
        assert(r@ =~= Map::<Seq<char>, Seq<char>>::empty());
        r
    }

    /// Maps the key to the value, replacing what was there.
    pub fn insert(&mut self, key: &str, value: &str)
        requires
            old(self).wf(),
        ensures
            final(self).wf(),
            final(self)@ == old(self)@.insert(key@, value@),
    {
        self.inner.put(key, value.to_owned(), -1);
        assert(self@ =~= old(self)@.insert(key@, value@));
    }

    /// The value under the key.
    pub fn get(&self, key: &str) -> (r: Option<String>)
        requires
            self.wf(),
        ensures
            match r {
                Some(v) => self@.contains_key(key@) && self@[key@] == v@,
                None => !self@.contains_key(key@),
            },
    {
        match self.inner.get_entry(key) {
            Some((v, _)) => Some(v.clone()),
            None => None,
        }
    }

    /// Removes the key.
    pub fn remove(&mut self, key: &str)
        requires
            old(self).wf(),
        ensures
            final(self).wf(),
            final(self)@ == old(self)@.remove(key@),
    {
        self.inner.remove(key);
        assert(self@ =~= old(self)@.remove(key@));
    }
}

} // verus!
