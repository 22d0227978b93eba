//! The system's monotonic clock.

use crate::transport::Clock;
use std::time::Instant;
use vstd::prelude::*;

verus! {

#[verifier::external_type_specification]
#[verifier::external_body]
pub struct ExInstant(Instant);

/// Relies on `std::time::Instant::now`: a reading of the monotonic clock.
#[verifier::external_body]
fn now() -> Instant {
    Instant::now()
}

/// Relies on `std::time::Instant::elapsed`: the time since `origin`, in nanoseconds.
#[verifier::external_body]
fn elapsed_nanos(origin: &Instant) -> u64 {
    origin.elapsed().as_nanos() as u64
}

/// Nanoseconds since the clock was made.
pub struct NanoClock {
    origin: Instant,
}

impl NanoClock {
    pub fn instance() -> Self {
        NanoClock { origin: now() }
    }

    pub fn nano_time(&self) -> u64 {
        elapsed_nanos(&self.origin)
    }
}

impl Clock for NanoClock {
    fn nano_time(&mut self) -> u64 {
        elapsed_nanos(&self.origin)
    }
}

} // verus!
