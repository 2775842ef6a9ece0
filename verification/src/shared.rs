//! Values that the device and its clients must agree on.

use vstd::prelude::*;

verus! {

/// The name under which the device advertises itself.
pub const BLE_DEVICE_NAME: &'static str = "humidity-monitor";

} // verus!
