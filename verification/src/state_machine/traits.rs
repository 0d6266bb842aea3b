//! Time and pins, as the state machine and its surroundings see them.

use vstd::prelude::*;

verus! {

/// A point in time, counted in ticks of the clock of the flight computer.
#[derive(Copy, Clone, Debug, PartialEq, Eq, Structural)]
pub struct Timestamp(usize);

impl View for Timestamp {
    type V = usize;

    closed spec fn view(&self) -> usize {
        self.0
    }
}

impl Timestamp {
    /// The point in time at which the clock showed `ticks`.
    pub fn new(ticks: usize) -> (time: Self)
        ensures
            time@ == ticks,
    {
        Timestamp(ticks)
    }

    /// What the clock showed at this point in time.
    pub fn ticks(&self) -> (ticks: usize)
        ensures
            ticks == self@,
    {
        self.0
    }

    /// Whether this point in time comes after `other`.
    pub fn is_after(&self, other: Timestamp) -> (after: bool)
        ensures
            after == (self@ > other@),
    {
        self.0 > other.0
    }

    /// The number of ticks from this point in time to `now`, or `None` if this
    /// point in time comes after `now`.
    pub fn try_elapsed(&self, now: Timestamp) -> (ticks: Option<usize>)
        ensures
            self@ <= now@ ==> ticks == Some((now@ - self@) as usize),
            self@ > now@ ==> ticks.is_none(),
    {
        if self.0 <= now.0 {
            Some(now.0 - self.0)
        } else {
            None
        }
    }

    /// The number of ticks from this point in time to `now`, or 0 if this
    /// point in time comes after `now`.
    pub fn elapsed(&self, now: Timestamp) -> (ticks: usize)
        ensures
            self@ <= now@ ==> ticks == now@ - self@,
            self@ > now@ ==> ticks == 0,
    {
        match self.try_elapsed(now) {
            Some(ticks) => ticks,
            None => 0,
        }
    }
}

/// A pin that can be read.
pub trait GpioRead {
    fn read(&self) -> bool;
}

/// A pin that can be driven.
pub trait GpioWrite {
    fn write(&mut self, val: bool);
}

/// A pin of the flight computer, by its number.
#[derive(Copy, Clone, Debug, PartialEq, Eq, Structural)]
pub struct Gpio(pub u16);

impl Gpio {
    pub fn new(pin: u16) -> (gpio: Self)
        ensures
            gpio == Gpio(pin),
    {
        Gpio(pin)
    }
}

} // verus!
