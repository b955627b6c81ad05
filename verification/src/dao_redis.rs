//! The arithmetic of the Redis-backed stores: what a remaining lifetime in
//! milliseconds reads as in seconds.
use vstd::prelude::*;

verus! {

/// A remaining lifetime as the store reports it in milliseconds, in whole
/// seconds: -2 (no such key) and -1 (kept forever) stay as they are, any
/// other count is divided by 1000, the fraction dropped toward zero.
pub open spec fn seconds_of_millis(ms: int) -> int {
    if ms == -2 || ms == -1 {
        ms
    } else if ms >= 0 {
        ms / 1000
    } else {
        -((-ms) / 1000)
    }
}

/// The remaining lifetime in seconds of a key whose lifetime in
/// milliseconds is `ms` (see [`seconds_of_millis`]).
pub fn pttl_to_seconds(ms: i64) -> (r: i64)
    ensures
        r == seconds_of_millis(ms as int),
{
    if ms == -2 || ms == -1 {
        ms
    } else if ms >= 0 {
        ms / 1000
    } else {
        let back: i64 = if ms == i64::MIN { i64::MAX } else { -ms };
        let q: i64 = if ms == i64::MIN { 9223372036854775 } else { back / 1000 };
        assert(ms == i64::MIN ==> -(ms as int) / 1000 == 9223372036854775);
        -q
    }
}

} // verus!
