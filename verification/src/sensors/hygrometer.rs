//! All about hygrometer sensors.

use vstd::prelude::*;

use super::Sensor;
use crate::serde::{Deserializable, Deserializer, Error, Serializable, Serializer};

verus! {

/// Represents a variety of soil moisture sensors.
#[derive(Debug, Clone, Copy, PartialEq, Eq, Structural)]
pub enum Hygrometer {
    /// Models the YL-69 resistive sensor.
    YL69,
    /// Models HW-390 capacitive sensor.
    HW390,
}

impl Hygrometer {
    /// The byte that stands for this model on the wire.
    pub open spec fn tag(&self) -> u8 {
        match self {
            Hygrometer::YL69 => 0,
            Hygrometer::HW390 => 1,
        }
    }
}

impl Sensor for Hygrometer {
    /// The reading of the sensor when exposed to water.
    open spec fn low_reading(&self) -> u16 {
        match self {
            Hygrometer::YL69 => 220,
            Hygrometer::HW390 => 1000,
        }
    }

    /// The reading of the sensor when exposed to air.
    open spec fn high_reading(&self) -> u16 {
        match self {
            Hygrometer::YL69 => 2053,
            Hygrometer::HW390 => 2050,
        }
    }

    fn low(&self) -> (r: u16) {
        match self {
            Hygrometer::YL69 => 220,
            Hygrometer::HW390 => 1000,
        }
    }

    fn high(&self) -> (r: u16) {
        match self {
            Hygrometer::YL69 => 2053,
            Hygrometer::HW390 => 2050,
        }
    }
}

impl Serializable for Hygrometer {
    open spec fn wire(&self) -> Seq<u8> {
        seq![self.tag()]
    }

    fn serialize(&self, ser: &mut Serializer) -> (r: Result<usize, Error>) {
        let tag: u8 = match self {
            Hygrometer::YL69 => 0,
            Hygrometer::HW390 => 1,
        };
        ser.write_u8(tag)
    }
}

impl Deserializable for Hygrometer {
    open spec fn parse(bytes: Seq<u8>) -> Result<(Self, nat), Error> {
        if bytes.len() < 1 {
            Err(Error::ErrBufferSmall)
        } else if bytes[0] == 0 {
            Ok((Hygrometer::YL69, 1))
        } else if bytes[0] == 1 {
            Ok((Hygrometer::HW390, 1))
        } else {
            Err(Error::ErrUnknownVariant)
        }
    }

    fn deserialize(de: &mut Deserializer) -> (r: Result<Self, Error>) {
        match de.read_u8() {
            Ok(tag) => {
                if tag == 0 {
                    Ok(Hygrometer::YL69)
                } else if tag == 1 {
                    Ok(Hygrometer::HW390)
                } else {
                    de.pos = de.pos - 1;
                    Err(Error::ErrUnknownVariant)
                }
            },
            Err(e) => Err(e),
        }
    }
}

/// A model that is written and read back is the same model, whatever
/// follows it.
pub proof fn lemma_hygrometer_round_trip(model: Hygrometer, rest: Seq<u8>)
    ensures
        Hygrometer::parse(model.wire() + rest) == Ok::<(Hygrometer, nat), Error>((model, 1)),
{
}

} // verus!
