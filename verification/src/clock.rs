//! Reading the wall clock.
use vstd::prelude::*;
use crate::model::{clock_reading, Timestamp};

verus! {

/// The current UTC instant.
///
/// Trusted: calls chrono's `Utc::now()` and splits the result with
/// `timestamp()` and `timestamp_subsec_nanos()`. chrono builds the instant
/// from the system clock's duration since the Unix epoch (panicking when the
/// clock reads earlier than the epoch), so the seconds are never negative and
/// the nanoseconds stay under one second. Which instant comes back is not
/// stated: the clock decides, and successive readings need not increase.
#[verifier::external_body]
pub(crate) fn now() -> (t: Timestamp)
    ensures
        clock_reading(t),
{
    let n = chrono::Utc::now();
    Timestamp { secs: n.timestamp(), nanos: n.timestamp_subsec_nanos() }
}

} // verus!
