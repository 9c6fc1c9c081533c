//! The wall clock, in milliseconds.
use vstd::prelude::*;

verus! {

/// Relies on `std::time::SystemTime::elapsed` (from the Unix epoch): the
/// current time in milliseconds. Nothing is promised of the value.
#[verifier::external_body]
pub(crate) fn clock_millis() -> u64 {
    match std::time::UNIX_EPOCH.elapsed() {
        Ok(d) => d.as_millis() as u64,
        Err(_) => 0,
    }
}

} // verus!
