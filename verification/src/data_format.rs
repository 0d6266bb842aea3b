//! What the flight computer logs for the ground station: a stream of
//! messages, each with the number of ticks since the one before it.
//!
//! The stream starts with a [`Data::TicksPerSecond`], which sets the length of
//! a tick. Every later message of that kind changes it for the messages that
//! follow. A [`Data::BarometerData`] only ever comes after a
//! [`Data::BarometerCalibration`].

use vstd::prelude::*;

verus! {

/// The calibration values of the barometer, which turn its raw readings into
/// pressure and temperature.
#[derive(Clone, Copy, Debug, PartialEq, Eq, Structural)]
pub struct BarometerCalibration {
    /// Pressure sensitivity.
    pub pressure_sensitivity: u16,
    /// Pressure offset.
    pub pressure_offset: u16,
    /// Temperature coefficient of the pressure sensitivity.
    pub temperature_coefficient_ps: u16,
    /// Temperature coefficient of the pressure offset.
    pub temperature_coefficient_po: u16,
    /// Reference temperature.
    pub reference_temperature: u16,
    /// Temperature coefficient of the temperature.
    pub temperature_coefficient_t: u16,
}

/// One raw sample of the barometer.
#[derive(Clone, Copy, Debug, PartialEq, Eq, Structural)]
pub struct BarometerData {
    pub temprature: u32,
    pub pressure: u32,
}

/// One raw sample of the accelerometer for high accelerations.
#[derive(Clone, Copy, Debug, PartialEq, Eq, Structural)]
pub struct HighGAccelerometerData {
    pub x: i16,
    pub y: i16,
    pub z: i16,
}

/// What a message carries.
#[derive(Clone, Copy, Debug, PartialEq, Eq, Structural)]
pub enum Data {
    /// The calibration values of the barometer.
    BarometerCalibration(BarometerCalibration),
    /// A sample of the barometer.
    BarometerData(BarometerData),
    /// A sample of the accelerometer for high accelerations.
    HighGAccelerometerData(HighGAccelerometerData),
    /// The number of ticks in a second, from this message on.
    TicksPerSecond(u32),
    /// Ticks that passed without a message. They count on top of the ticks
    /// of the message itself.
    Heartbeat(u32),
}

/// One message of the stream.
#[derive(Clone, Copy, Debug, PartialEq, Eq, Structural)]
pub struct Message {
    /// The number of ticks since the message before this one.
    pub ticks_since_last_message: u16,
    /// What the message carries.
    pub data: Data,
}

impl Message {
    pub fn new(ticks_since_last_message: u16, data: Data) -> (message: Self)
        ensures
            message == (Message { ticks_since_last_message, data }),
    {
        Self { ticks_since_last_message, data }
    }
}

} // verus!
