//! The two sources of values that no input determines: the clock and the
//! random generator. Their readings can be made here alone, so a value of
//! these types has come from the source itself.
use vstd::prelude::*;
use rand::Rng;
use chrono::{Datelike, Timelike};
use crate::firebase::LocalTime;
use crate::utils::is_ascii_alnum;

verus! {

/// The thread-local random number generator of the `rand` crate.
#[verifier::external_type_specification]
#[verifier::external_body]
pub struct ExThreadRng(rand::rngs::ThreadRng);

/// `rand::thread_rng()`: a handle to the generator of the current thread.
#[verifier::external_body]
pub(crate) fn thread_rng() -> rand::rngs::ThreadRng {
    rand::thread_rng()
}

/// A byte drawn from the random generator.
pub struct Draw {
    byte: u8,
}

impl View for Draw {
    type V = u8;

    closed spec fn view(&self) -> u8 {
        self.byte
    }
}

impl Draw {
    /// The byte drawn.
    pub fn byte(&self) -> (r: u8)
        ensures
            r == self@,
    {
        self.byte
    }
}

/// `rng.sample(Alphanumeric)` of `rand`: a random byte, an ASCII letter or
/// digit (`A-Z`, `a-z`, `0-9`). Which one is left to chance.
#[verifier::external_body]
pub(crate) fn sample_alphanumeric(rng: &mut rand::rngs::ThreadRng) -> (r: Draw)
    ensures
        is_ascii_alnum(r@),
{
    Draw { byte: rng.sample(rand::distributions::Alphanumeric) }
}

/// A reading of the local clock.
pub struct ClockReading {
    time: LocalTime,
}

impl View for ClockReading {
    type V = LocalTime;

    closed spec fn view(&self) -> LocalTime {
        self.time
    }
}

impl ClockReading {
    /// The local time read.
    pub fn time(&self) -> (r: LocalTime)
        ensures
            r == self@,
    {
        self.time
    }
}

/// `Local::now()` of `chrono`, read through `Timelike` and `Datelike`: the
/// current local time. Only the documented ranges of its fields are stated;
/// which moment it is depends on the clock and the time zone.
#[verifier::external_body]
pub(crate) fn local_now() -> (r: ClockReading)
    ensures
        r@.valid(),
{
    let now = chrono::Local::now();
    ClockReading {
        time: LocalTime {
            hour: now.hour(),
            minute: now.minute(),
            second: now.second(),
            day: now.day(),
            month: now.month(),
            year: now.year(),
        },
    }
}

} // verus!
