//! Sensors and their calibration.
//!
//! A [`Sensor`] knows the raw readings that it gives in water and in air.
//! Supported hygrometers: [`Hygrometer::YL69`] and [`Hygrometer::HW390`].

use vstd::prelude::*;

use crate::serde::{Deserializable, Serializable};

pub mod hygrometer;

pub use hygrometer::Hygrometer;

verus! {

/// Common behaviour of all sensors: the calibrated low and high readings
/// between which a raw value is placed.
pub trait Sensor: Serializable + Deserializable {
    /// The calibrated low reading.
    spec fn low_reading(&self) -> u16;

    /// The calibrated high reading.
    spec fn high_reading(&self) -> u16;

    /// Returns the calibrated low reading.
    fn low(&self) -> (r: u16)
        ensures
            r == self.low_reading(),
    ;

    /// Returns the calibrated high reading.
    fn high(&self) -> (r: u16)
        ensures
            r == self.high_reading(),
    ;
}

} // verus!
