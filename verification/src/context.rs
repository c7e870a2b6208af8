//! The clock of a command stream.
use crate::number::{Number, MINUS_ONE_BITS};
use vstd::prelude::*;

verus! {

/// The time that commands are stamped with, and the latest time ever set.
#[derive(Clone, Copy, Debug)]
pub struct Context {
    pub current_time: Number,
    pub max_time_ever: Number,
}

/// The later of two times. A NaN gives way to the other time; of two equal
/// times the first is kept.
pub open spec fn later(a: Number, b: Number) -> Number {
    if b.is_nan() {
        a
    } else if a.is_nan() || a.precedes(b) {
        b
    } else {
        a
    }
}

impl Default for Context {
    /// The clock before any `update`: the time is 0 and no time was ever set.
    fn default() -> (c: Context)
        ensures
            c.current_time.bits == 0,
            c.max_time_ever.bits == MINUS_ONE_BITS,
    {
        Context { current_time: Number::zero(), max_time_ever: Number::from_bits(MINUS_ONE_BITS) }
    }
}

impl Context {
    /// Sets the time, and keeps the latest time ever set.
    pub fn update_time(&mut self, next_time: Number)
        ensures
            final(self).current_time == next_time,
            final(self).max_time_ever == later(old(self).max_time_ever, next_time),
            !final(self).max_time_ever.precedes(old(self).max_time_ever),
    {
        self.max_time_ever = self.max_time_ever.max(next_time);
        self.current_time = next_time;
    }
}

} // verus!
