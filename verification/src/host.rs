//! Trusted declarations for the two host facilities the interpreter leans
//! on: a random byte source and a monotonic wall clock. Nothing can be
//! promised of either value, so the interpreter's contracts quantify over
//! every outcome these can produce.

use vstd::prelude::*;

verus! {

/// `std::time::Instant` carried opaquely through the interpreter; the core
/// only hands it to the clock functions below.
#[verifier::external_type_specification]
#[verifier::external_body]
pub struct ExInstant(std::time::Instant);

/// Relies on `fastrand::u8` over the full byte range, which never panics
/// there; the value is random, so nothing is promised of it.
#[verifier::external_body]
pub(crate) fn random_byte() -> u8 {
    fastrand::u8(0..=255)
}

/// Relies on `std::time::Instant::now`: the current instant; nothing is
/// promised of the value.
#[verifier::external_body]
pub(crate) fn instant_now() -> std::time::Instant {
    std::time::Instant::now()
}

/// Relies on `std::time::Instant::elapsed`: the wall-clock time since `t`,
/// which depends on the clock; nothing is promised of the value.
#[verifier::external_body]
pub(crate) fn instant_elapsed(t: &std::time::Instant) -> std::time::Duration {
    t.elapsed()
}

/// Relies on `std::time::Duration::as_nanos`: the duration in nanoseconds.
/// The duration itself is opaque here, so nothing is promised of the value.
#[verifier::external_body]
pub(crate) fn duration_as_nanos(d: &std::time::Duration) -> u128 {
    d.as_nanos()
}

} // verus!
