//! Timestamps for event envelopes.

use vstd::prelude::*;

verus! {

#[verifier::external_type_specification]
#[verifier::external_body]
pub struct ExInstant(std::time::Instant);

/// Relies on std::time::Instant's derived Clone: `Instant` is `Copy`, so a
/// clone is the same reading.
pub assume_specification[ <std::time::Instant as Clone>::clone ](
    this: &std::time::Instant,
) -> (r: std::time::Instant)
    ensures
        r == *this,
;

/// Relies on std::time::Instant::now: an opaque reading of the monotonic
/// clock, captured when an envelope is built. Nothing is assumed of its
/// value.
#[verifier::external_body]
pub(crate) fn instant_now() -> std::time::Instant {
    std::time::Instant::now()
}

} // verus!
