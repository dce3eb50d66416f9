//! The system clock.
use vstd::prelude::*;

verus! {

/// Whole seconds since the Unix epoch from `std::time::SystemTime::now`
/// (zero for a clock set before the epoch). Which time comes back is not
/// stated: it depends on the machine's clock.
#[verifier::external_body]
pub(crate) fn unix_seconds() -> (r: u64) {
    std::time::SystemTime::now().duration_since(std::time::UNIX_EPOCH).unwrap_or_default().as_secs()
}

} // verus!
