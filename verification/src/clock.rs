//! The wall clock.
use vstd::prelude::*;

verus! {

/// Bound on the seconds of any instant that `chrono::DateTime<Utc>` can represent
/// (its range spans about ±262 000 years around 1970).
pub const TIMESTAMP_BOUND: i64 = 10_000_000_000_000i64;

/// Calls `chrono::Utc::now().timestamp()`: the current time in seconds since the Unix
/// epoch. Which instant comes back is not claimed; only that it lies in the range that
/// `DateTime<Utc>` can represent.
#[verifier::external_body]
pub(crate) fn now_timestamp() -> (t: i64)
    ensures
        -TIMESTAMP_BOUND < t < TIMESTAMP_BOUND,
{
    chrono::Utc::now().timestamp()
}

} // verus!
