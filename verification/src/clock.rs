//! The store's clock: nanoseconds on Tokio's monotonic clock, counted from
//! the moment the store was made.

use vstd::prelude::*;

verus! {

/// Nanoseconds in one second.
pub const NANOS_PER_SECOND: u128 = 1_000_000_000;

/// Tokio's `Instant`, a point on its monotonic clock. The store keeps one as
/// the origin of its readings and never looks inside.
#[verifier::external_type_specification]
#[verifier::external_body]
pub struct ExInstant(tokio::time::Instant);

/// `tokio::time::Instant::now` reads the clock; nothing is claimed of the
/// reading.
pub assume_specification[ tokio::time::Instant::now ]() -> (now: tokio::time::Instant)
;

/// `tokio::time::Instant::elapsed` gives the time from `origin` to now, zero
/// if `origin` lies in the future; its `Duration` is handed on as whole
/// nanoseconds. Nothing is claimed of the number.
#[verifier::external_body]
pub(crate) fn elapsed_nanos(origin: &tokio::time::Instant) -> (nanos: u128) {
    origin.elapsed().as_nanos()
}

} // verus!
