//! The time of day.

use vstd::prelude::*;
use crate::number::{wrap_i64, wrapped};

verus! {

/// Reads the clock with `std::time::SystemTime::elapsed` on the beginning of 1970:
/// the whole seconds that have passed since, or none where the clock stands before
/// that. What the clock shows is not claimed.
#[verifier::external_body]
fn read_clock() -> (r: Option<u64>) {
    match std::time::UNIX_EPOCH.elapsed() {
        Ok(elapsed) => Some(elapsed.as_secs()),
        Err(_) => None,
    }
}

/// The seconds since the beginning of 1970, for a clock that shows `reading`.
pub open spec fn clock_spec(reading: Option<u64>) -> Option<int> {
    match reading {
        Some(seconds) => Some(wrapped(seconds as int)),
        None => None,
    }
}

/// The seconds since the beginning of 1970, for a clock that shows `reading`.
pub fn clock_seconds(reading: Option<u64>) -> (r: Option<i64>)
    ensures
        clock_spec(reading) == (match r {
            Some(t) => Some(t as int),
            None => None,
        }),
{
    match reading {
        Some(seconds) => Some(wrap_i64(seconds)),
        None => None,
    }
}

/// The seconds since the beginning of 1970, by the clock of the machine; none
/// where the clock stands before that. A clock may show anything, so what is
/// claimed holds of every result; for a given reading, `clock_seconds` says which
/// result it is.
pub fn now() -> (r: Option<i64>)
    ensures
        exists|reading: Option<u64>|
            #[trigger] clock_spec(reading) == (match r {
                Some(t) => Some(t as int),
                None => None,
            }),
{
    let reading = read_clock();
    clock_seconds(reading)
}

/// A clock that shows so many seconds gives so many, as long as they can be
/// counted, and one that shows none gives none.
pub proof fn law_clock(seconds: u64)
    ensures
        seconds <= i64::MAX ==> clock_spec(Some(seconds)) == Some(seconds as int),
        clock_spec(None) is None,
{
}

} // verus!
