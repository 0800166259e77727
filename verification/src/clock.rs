//! A monotonic clock that counts nanoseconds from the moment it was started.

use vstd::prelude::*;
use std::time::{Duration, Instant};

verus! {

#[verifier::external_type_specification]
#[verifier::external_body]
pub struct ExInstant(Instant);

/// The present moment, from `std::time::Instant::now`. Nothing is claimed of
/// it.
#[verifier::external_body]
fn instant_now() -> (moment: Instant) {
    Instant::now()
}

/// The time that has passed since `epoch`, from `std::time::Instant::elapsed`.
/// Nothing is claimed of it.
#[verifier::external_body]
fn elapsed_since(epoch: &Instant) -> (passed: Duration) {
    epoch.elapsed()
}

/// `std::time::Duration::as_nanos`: the whole duration in nanoseconds. Nothing
/// is claimed of the number.
pub assume_specification[ Duration::as_nanos ](duration: &Duration) -> (nanos: u128)
;

/// A clock. Its readings are nanoseconds since [`Clock::start`].
pub struct Clock {
    epoch: Instant,
}

impl Clock {
    /// A clock that reads zero now.
    pub fn start() -> (clock: Clock) {
        Clock { epoch: instant_now() }
    }

    /// The clock's reading. It depends on the moment of the call, so nothing
    /// is promised of it.
    pub fn now(&self) -> (nanos: u128) {
        let passed = elapsed_since(&self.epoch);
        passed.as_nanos()
    }
}

} // verus!
