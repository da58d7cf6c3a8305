//! The clock that instants are read from: milliseconds since the clock was
//! started, on the monotonic clock of the machine.

use std::time::{Duration, Instant};
use vstd::prelude::*;

verus! {

/// `std::time::Instant`, a reading of the monotonic clock of the machine.
/// Nothing is known of a reading but its type.
#[verifier::external_type_specification]
#[verifier::external_body]
pub struct ExInstant(Instant);

/// `Instant::now`: the current reading. Nothing is claimed of it.
#[verifier::external_body]
fn reading() -> Instant {
    Instant::now()
}

/// `Instant::elapsed`: the time that has passed since `origin` was read.
/// Nothing is claimed of it.
#[verifier::external_body]
fn since(origin: &Instant) -> Duration {
    origin.elapsed()
}

/// `Duration::as_millis`: the whole milliseconds in `span`. Nothing is
/// claimed of the number.
#[verifier::external_body]
fn millis(span: &Duration) -> u128 {
    span.as_millis()
}

/// The instant that lies `elapsed` milliseconds after the start of a clock:
/// `elapsed` itself, or the last instant where the clock cannot count so far.
pub fn instant_at(elapsed: u128) -> (r: u64)
    ensures
        r == (if elapsed <= u64::MAX {
            elapsed as int
        } else {
            u64::MAX as int
        }),
{
    if elapsed <= u64::MAX as u128 {
        elapsed as u64
    } else {
        u64::MAX
    }
}

/// A clock. Its readings are the instants of this library.
#[derive(Clone, Copy)]
pub struct Clock {
    origin: Instant,
}

impl Clock {
    /// A clock that starts now, at instant 0.
    pub fn start() -> Clock {
        Clock { origin: reading() }
    }

    /// The instant that it is now.
    pub fn now(&self) -> u64 {
        let span = since(&self.origin);
        instant_at(millis(&span))
    }
}

} // verus!
