//! Small building blocks of the workshop firmware: a sensor driver handle
//! and a future that completes after a number of polls.

use vstd::prelude::*;

verus! {

/// A temperature sensor on an I2C bus, at a 7-bit address.
pub struct TemperatureSensor<I2C> {
    pub i2c: I2C,
    pub address: u8,
}

impl<I2C> TemperatureSensor<I2C> {
    /// The driver for the sensor at `address` on `i2c`.
    pub fn new(i2c: I2C, address: u8) -> (s: Self)
        ensures
            s.i2c == i2c,
            s.address == address,
    {
        Self { i2c, address }
    }
}

/// A timer that completes after a number of polls (standing in for a
/// hardware timer).
pub struct TimerFuture {
    pub polls_remaining: u32,
}

impl TimerFuture {
    /// A timer that completes after `duration_polls` polls.
    pub fn new(duration_polls: u32) -> (t: Self)
        ensures
            t.polls_remaining == duration_polls,
    {
        Self { polls_remaining: duration_polls }
    }
}

} // verus!
