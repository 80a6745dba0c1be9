//! The wall clock, read through chrono.

use vstd::prelude::*;

verus! {

/// Milliseconds since the Unix epoch, from `chrono::Utc::now()`.
///
/// Trusted: the body calls `chrono::Utc::now().timestamp_millis()`. The
/// result is the time of the call; all that is promised is that it is not
/// before the epoch (`Utc::now` panics on a system clock set before 1970).
#[verifier::external_body]
pub(crate) fn now_ms() -> (t: i64)
    ensures
        t >= 0,
{
    chrono::Utc::now().timestamp_millis()
}

/// Milliseconds elapsed from `start` to `now`, or 0 if `now` is earlier.
pub open spec fn elapsed_spec(start: i64, now: i64) -> u64 {
    if now <= start {
        0
    } else {
        (now - start) as u64
    }
}

/// Milliseconds elapsed from `start` to `now`, clamped at 0.
pub fn elapsed_ms(start: i64, now: i64) -> (d: u64)
    ensures
        d == elapsed_spec(start, now),
{
    if now <= start {
        0
    } else {
        let d: i128 = (now as i128) - (start as i128);
        d as u64
    }
}

} // verus!
