use vstd::prelude::*;

use std::time::{Duration, SystemTime, SystemTimeError};

verus! {

/// The system clock's reading, carried through opaque.
#[verifier::external_type_specification]
#[verifier::external_body]
pub struct ExSystemTime(SystemTime);

/// The error of a clock that reads earlier than the instant asked about.
#[verifier::external_type_specification]
#[verifier::external_body]
pub struct ExSystemTimeError(SystemTimeError);

/// Relies on SystemTime::now: it reads the clock and does not panic; nothing is known of
/// the reading.
pub assume_specification[ SystemTime::now ]() -> SystemTime;

/// Relies on SystemTime::duration_since: it returns an error, and does not panic, where
/// `earlier` is later than `self`.
pub assume_specification[ SystemTime::duration_since ](
    t: &SystemTime,
    earlier: SystemTime,
) -> Result<Duration, SystemTimeError>;

/// Relies on Duration::as_millis: the whole milliseconds of the span, without panicking.
pub assume_specification[ Duration::as_millis ](d: &Duration) -> u128;

/// Relies on std::time::UNIX_EPOCH: the instant that clock readings are measured from.
#[verifier::external_body]
fn unix_epoch() -> SystemTime {
    std::time::UNIX_EPOCH
}

/// Milliseconds since the Unix epoch, or `None` where the clock reads earlier than it.
pub fn get_timestamp() -> (r: Option<u128>) {
    match SystemTime::now().duration_since(unix_epoch()) {
        Ok(elapsed) => Some(elapsed.as_millis()),
        Err(_) => None,
    }
}

} // verus!
