//! Wall-clock readings for the elapsed-time field of the training metrics.
//!
//! Clock values depend on the machine and the moment, so nothing is assumed
//! about them: the trusted wrappers state no more than their types, and the
//! conversion to a bounded nanosecond count is verified.

use vstd::prelude::*;

verus! {

#[verifier::external_type_specification]
#[verifier::external_body]
pub struct ExInstant(std::time::Instant);

/// Relies on std::time::Instant::now: an opaque reading of the monotonic
/// clock. Nothing is assumed of its value.
#[verifier::external_body]
pub(crate) fn clock_now() -> std::time::Instant {
    std::time::Instant::now()
}

/// Relies on std::time::Instant::elapsed: the time since `start` as an
/// opaque duration. Nothing is assumed of its value.
#[verifier::external_body]
pub(crate) fn elapsed_since(start: &std::time::Instant) -> std::time::Duration {
    start.elapsed()
}

/// Relies on std::time::Duration::as_nanos: the duration as a whole number
/// of nanoseconds. Nothing is assumed of its value.
#[verifier::external_body]
pub(crate) fn duration_nanos(d: &std::time::Duration) -> u128 {
    d.as_nanos()
}

/// Clamp a nanosecond count into a `u64`.
pub(crate) fn nanos_to_u64(n: u128) -> (r: u64)
    ensures
        r as int == if n > u64::MAX {
            u64::MAX as int
        } else {
            n as int
        },
{
    if n > u64::MAX as u128 {
        u64::MAX
    } else {
        n as u64
    }
}

} // verus!
