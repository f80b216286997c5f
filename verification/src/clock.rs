//! The wall clock, read as a count of nanoseconds.
//!
//! Everything the cache knows about time passes through here. The two
//! functions marked `external_body` call into `std::time`; their contracts
//! are taken on trust.

use std::time::{Duration, UNIX_EPOCH};
use vstd::prelude::*;

verus! {

/// The length of a `Duration` in whole nanoseconds, as `Duration::as_nanos`
/// reports it.
pub uninterp spec fn nanos_of(d: Duration) -> u128;

/// Calls `Duration::as_nanos`. Trusted: the result is the duration's length
/// in nanoseconds, which is what `nanos_of` names.
#[verifier::external_body]
pub(crate) fn as_nanos(d: &Duration) -> (n: u128)
    ensures
        n == nanos_of(*d),
{
    d.as_nanos()
}

/// Calls `SystemTime::elapsed` on `UNIX_EPOCH`: the time that has passed
/// since the epoch, or `None` where the clock stands before it. Nothing is
/// claimed of the reading.
#[verifier::external_body]
pub(crate) fn since_epoch() -> Option<Duration> {
    UNIX_EPOCH.elapsed().ok()
}

/// The reading that the cache takes from what the clock gave: the length in
/// nanoseconds of the time passed since the Unix epoch, and 0 where the
/// clock stands before the epoch and gave none.
pub open spec fn reading(elapsed: Option<Duration>) -> u128 {
    match elapsed {
        Some(d) => nanos_of(d),
        None => 0,
    }
}

/// Reads the wall clock: nanoseconds since the Unix epoch, 0 where the clock
/// stands before it.
///
/// The result is the reading of whatever the clock gave, and nothing is
/// promised of that. Two readings need not agree, and a later one may be
/// smaller than an earlier one; the cache treats a reading that lies before
/// a value's insertion as the moment of the insertion.
pub(crate) fn now_nanos() -> (n: u128)
    ensures
        exists|elapsed: Option<Duration>| n == #[trigger] reading(elapsed),
{
    let elapsed = since_epoch();
    let n = match &elapsed {
        Some(d) => as_nanos(d),
        None => 0,
    };
    assert(n == reading(elapsed));
    n
}

} // verus!
