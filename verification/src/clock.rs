//! The one place where the library reads the wall clock.

use vstd::prelude::*;

verus! {

/// Relies on std::time::SystemTime::now and duration_since: a wall-clock
/// reading in milliseconds since the Unix epoch.  Nothing is promised of the
/// value: every caller must (and does) hold for every possible reading.
#[verifier::external_body]
pub(crate) fn now_millis() -> u64 {
    match std::time::SystemTime::now().duration_since(std::time::UNIX_EPOCH) {
        Ok(d) => {
            let ms = d.as_millis();
            if ms > u64::MAX as u128 {
                u64::MAX
            } else {
                ms as u64
            }
        },
        Err(_) => 0,
    }
}

} // verus!
