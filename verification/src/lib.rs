//! Core of a soil-moisture monitor and of the tools around it.
//!
//! - [`serde`]: cursors over byte slices and the traits of values with a
//!   fixed wire form.
//! - [`sample`]: what a measurement cycle gives, its plain and its compact
//!   wire form, and the summary of a cycle's readings.
//! - [`sensors`]: the supported sensors and their calibration.
//! - [`historical`]: a bounded history of records and the cursor that
//!   streams it out, one record per read.
//! - [`alarm`], [`connection`]: what the device decides between two reads of
//!   its hardware.
//! - [`term`]: what the screens of the device scanner decide on a key press.
//! - [`toolbox`]: formatting into a byte slice.
//! - [`shared`]: values that the device and its clients agree on.
//!
//! Nothing here performs I/O, and nothing on the sampling and serving paths
//! allocates. Every function carries a contract that Verus proves.

pub mod alarm;
pub mod connection;
pub mod historical;
pub mod sample;
pub mod sensors;
pub mod serde;
pub mod shared;
pub mod term;
pub mod toolbox;
