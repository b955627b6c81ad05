//! One pass of the sweeper that deletes the expired strings of the store.
use vstd::prelude::*;
use crate::dao::{SaTokenDaoMemory, lemma_empty_page, page};
use crate::text::views;

verus! {

/// One sweep of the store: lists the string keys under `prefix` from
/// position 0 with a page size of -1, deletes those with no seconds left
/// and counts those found gone or deleted. The store answers such a listing
/// with no keys, so the sweep changes nothing and counts 0.
pub fn sweep_once(dao: &mut SaTokenDaoMemory, prefix: &str, now: i64) -> (r: usize)
    requires
        old(dao).wf(),
        0 <= now < i64::MAX,
    ensures
        final(dao).wf(),
        final(dao)@ == old(dao)@,
        r == 0,
{
    let keys = dao.search_data(prefix, "", 0, -1, true, now);
    proof {
        assert forall|l: Seq<Seq<char>>| #[trigger] page(l, 0i64, -1i64).len() == 0 by {
            lemma_empty_page(l, 0i64, -1i64);
        }
        assert(views(keys@).len() == 0);
    }
    let mut expired: usize = 0;
    let mut i: usize = 0;
    while i < keys.len()
        invariant
            keys@.len() == 0,
            i <= keys@.len(),
            dao.wf(),
            dao@ == old(dao)@,
            expired == 0,
        decreases keys@.len() - i,
    {
        let k = keys[i].as_str();
        let ttl = dao.get_timeout(k, now);
        if ttl == -2 {
            expired += 1;
        } else if ttl == 0 {
            dao.delete(k);
            expired += 1;
        }
        i += 1;
    }
    expired
}

} // verus!
