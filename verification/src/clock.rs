//! The wall clock, read through std.

use vstd::prelude::*;

verus! {

/// `SystemTime::now` as whole seconds since the Unix epoch (0 before the
/// epoch). Trusted with no contract: the result depends on the time.
#[verifier::external_body]
pub(crate) fn unix_now() -> u64 {
    std::time::SystemTime::now().duration_since(std::time::UNIX_EPOCH).unwrap_or_default().as_secs()
}

/// `SystemTime::now` as the milliseconds within the current second.
/// Trusted: the result depends on the time; it is below 1000 because the
/// sub-second part of a duration is.
#[verifier::external_body]
pub(crate) fn subsec_millis_now() -> (r: u32)
    ensures
        r < 1000,
{
    std::time::SystemTime::now().duration_since(std::time::UNIX_EPOCH).unwrap_or_default().subsec_millis()
}

} // verus!
