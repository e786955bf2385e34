//! Clocks.
use vstd::prelude::*;

verus! {

/// A reading of the monotonic clock.
#[verifier::external_type_specification]
#[verifier::external_body]
pub struct ExInstant(std::time::Instant);

/// A reading of the system clock.
#[verifier::external_type_specification]
#[verifier::external_body]
pub struct ExSystemTime(std::time::SystemTime);

/// `Instant::now`: nothing is known of the reading.
pub assume_specification[ std::time::Instant::now ]() -> std::time::Instant
;

/// `Instant::elapsed`: nothing is known of the time that has passed.
pub assume_specification[ std::time::Instant::elapsed ](
    start: &std::time::Instant,
) -> std::time::Duration
;

/// `Duration::as_nanos`: nothing is known of the duration, nor of the number.
pub assume_specification[ std::time::Duration::as_nanos ](
    duration: &std::time::Duration,
) -> u128
;

/// `SystemTime::now`: nothing is known of the reading.
pub assume_specification[ std::time::SystemTime::now ]() -> std::time::SystemTime
;

/// A second, in nanoseconds.
pub const SECOND: u128 = 1_000_000_000;

}
