//! The wall clock, read once per call.

use vstd::prelude::*;

verus! {

/// Milliseconds since the Unix epoch by the system clock
/// (`std::time::SystemTime::now` measured with `duration_since(UNIX_EPOCH)`),
/// or 0 when the clock reads earlier than the epoch. Nothing is claimed of the
/// value: it is whatever the clock says.
#[verifier::external_body]
pub(crate) fn unix_millis_now() -> (ms: u64) {
    match std::time::SystemTime::now().duration_since(std::time::UNIX_EPOCH) {
        Ok(d) => d.as_millis() as u64,
        Err(_) => 0,
    }
}

} // verus!
