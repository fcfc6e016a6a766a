use vstd::prelude::*;
use std::time::Duration;
use std::time::Instant;
use crate::timeout_runner::cap_nanos;

verus! {

/// `std::time::Instant`, a moment on the monotonic clock. Its value is
/// opaque here.
#[verifier::external_type_specification]
#[verifier::external_body]
pub struct ExInstant(Instant);

/// `Instant::now`: the present moment. Nothing is claimed of it.
#[verifier::external_body]
pub(crate) fn now() -> Instant {
    Instant::now()
}

/// `Instant::elapsed`: the time that has passed since `start`. Nothing is
/// claimed of it.
#[verifier::external_body]
pub(crate) fn elapsed(start: &Instant) -> Duration {
    start.elapsed()
}

/// `Duration::as_nanos`: the span in whole nanoseconds. Nothing is claimed of
/// the number.
#[verifier::external_body]
pub(crate) fn as_nanos(span: &Duration) -> u128 {
    span.as_nanos()
}

/// The nanoseconds that have passed since `start`, capped at the largest
/// value a `u64` holds. The reading is the clock's: nothing is claimed of it.
pub(crate) fn elapsed_nanos(start: &Instant) -> u64 {
    let span: Duration = elapsed(start);
    let nanos: u128 = as_nanos(&span);
    cap_nanos(nanos)
}

} // verus!
