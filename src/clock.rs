use vstd::prelude::*;

verus! {

/// `std::time::Instant`, carried through opaquely: a point of the monotonic
/// clock at which a run started.
#[verifier::external_type_specification]
#[verifier::external_body]
pub struct ExInstant(std::time::Instant);

/// Relies on std::time::Instant::now: the current instant of the monotonic
/// clock. Nothing is promised of its value.
#[verifier::external_body]
pub(crate) fn now() -> (r: std::time::Instant) {
    std::time::Instant::now()
}

/// Relies on std::time::Instant::elapsed: the whole seconds passed since
/// `start`. Nothing is promised of its value.
#[verifier::external_body]
pub(crate) fn elapsed_secs(start: &std::time::Instant) -> (r: u64) {
    start.elapsed().as_secs()
}

} // verus!
