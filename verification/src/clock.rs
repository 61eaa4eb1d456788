//! The one place the library reads a clock. The results depend on the
//! machine's time, so nothing is promised about their values.

use vstd::prelude::*;

verus! {

/// Relies on std::time::SystemTime::now, read as seconds since the Unix
/// epoch; 0 when the clock reads earlier than the epoch. The result depends
/// on the wall clock, so no value is promised.
#[verifier::external_body]
pub(crate) fn now_unix_seconds() -> u64 {
    match std::time::SystemTime::now().duration_since(std::time::UNIX_EPOCH) {
        Ok(d) => d.as_secs(),
        Err(_) => 0,
    }
}

} // verus!
