//! The buzzer's report of a measurement.

use vstd::prelude::*;

verus! {

/// How many times the buzzer sounds for an average reading of `avg`: once up
/// to 650, twice up to 800, three times up to 1100, ten times above.
pub open spec fn beeps_for(avg: u32) -> u8 {
    if avg <= 650 {
        1
    } else if avg <= 800 {
        2
    } else if avg <= 1100 {
        3
    } else {
        10
    }
}

/// The number of times that the buzzer sounds for an average reading.
pub fn beeps(avg: u32) -> (n: u8)
    ensures
        n == beeps_for(avg),
{
    if avg <= 650 {
        1
    } else if avg <= 800 {
        2
    } else if avg <= 1100 {
        3
    } else {
        10
    }
}

} // verus!
