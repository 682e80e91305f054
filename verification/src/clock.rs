//! The wall clock, read in milliseconds.

use vstd::prelude::*;

verus! {

/// Reads `instant::SystemTime::now()` and returns the milliseconds since the
/// Unix epoch (0 if the clock stands before it). Nothing is claimed of the
/// value: it is the time.
#[verifier::external_body]
pub(crate) fn now_millis() -> (ms: u64) {
    match instant::SystemTime::now().duration_since(instant::SystemTime::UNIX_EPOCH) {
        Ok(d) => d.as_millis() as u64,
        Err(_) => 0,
    }
}

} // verus!
