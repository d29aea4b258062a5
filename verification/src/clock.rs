//! Readings of the monotonic clock as plain numbers.

use std::time::Instant;
use vstd::prelude::*;

verus! {

#[verifier::external_type_specification]
#[verifier::external_body]
pub struct ExInstant(Instant);

/// `Instant::now`: the present moment. Nothing is stated of it, since every
/// call gives another.
#[verifier::external_body]
fn present() -> (res: Instant) {
    Instant::now()
}

/// `Instant::elapsed`, in nanoseconds: the time since `origin`. Nothing is
/// stated of it, since it grows from call to call.
#[verifier::external_body]
fn nanos_since(origin: &Instant) -> (res: u64) {
    origin.elapsed().as_nanos() as u64
}

/// A monotonic clock that counts nanoseconds from the moment it was started.
#[derive(Debug, Clone, Copy)]
pub struct Clock {
    origin: Instant,
}

impl Clock {
    pub fn start() -> (res: Clock) {
        Clock { origin: present() }
    }

    /// The reading at the moment of the call.
    pub fn now(&self) -> (res: u64) {
        nanos_since(&self.origin)
    }
}

} // verus!
