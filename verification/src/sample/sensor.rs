use vstd::prelude::*;

use crate::serde::{Deserializable, Deserializer, Error, Serializable, Serializer};

verus! {

/// How a sensor measures moisture. The kind fixes the calibration bounds
/// between which a raw reading is placed.
#[derive(Debug, Clone, Copy, PartialEq, Eq, Structural)]
pub enum SensorKind {
    Resistive,
    Capacitive,
}

impl SensorKind {
    /// The byte that stands for this kind on the wire.
    pub open spec fn tag(&self) -> u8 {
        match self {
            SensorKind::Resistive => 0,
            SensorKind::Capacitive => 1,
        }
    }

    /// The calibrated reading in water.
    pub open spec fn low_reading(&self) -> u16 {
        match self {
            SensorKind::Resistive => 220,
            SensorKind::Capacitive => 700,
        }
    }

    /// The calibrated reading in air.
    pub open spec fn high_reading(&self) -> u16 {
        match self {
            SensorKind::Resistive => 2053,
            SensorKind::Capacitive => 2000,
        }
    }

    /// Returns the calibrated reading in water.
    pub fn low(&self) -> (r: u16)
        ensures
            r == self.low_reading(),
    {
        match self {
            SensorKind::Resistive => 220,
            SensorKind::Capacitive => 700,
        }
    }

    /// Returns the calibrated reading in air.
    pub fn high(&self) -> (r: u16)
        ensures
            r == self.high_reading(),
    {
        match self {
            SensorKind::Resistive => 2053,
            SensorKind::Capacitive => 2000,
        }
    }
}

impl Serializable for SensorKind {
    open spec fn wire(&self) -> Seq<u8> {
        seq![self.tag()]
    }

    fn serialize(&self, se: &mut Serializer) -> (r: Result<usize, Error>) {
        let tag: u8 = match self {
            SensorKind::Resistive => 0,
            SensorKind::Capacitive => 1,
        };
        se.write_u8(tag)
    }
}

impl Deserializable for SensorKind {
    open spec fn parse(bytes: Seq<u8>) -> Result<(Self, nat), Error> {
        if bytes.len() < 1 {
            Err(Error::ErrBufferSmall)
        } else if bytes[0] == 0 {
            Ok((SensorKind::Resistive, 1))
        } else if bytes[0] == 1 {
            Ok((SensorKind::Capacitive, 1))
        } else {
            Err(Error::ErrUnknownVariant)
        }
    }

    fn deserialize(de: &mut Deserializer) -> (r: Result<Self, Error>) {
        match de.read_u8() {
            Ok(tag) => {
                if tag == 0 {
                    Ok(SensorKind::Resistive)
                } else if tag == 1 {
                    Ok(SensorKind::Capacitive)
                } else {
                    de.pos = de.pos - 1;
                    Err(Error::ErrUnknownVariant)
                }
            },
            Err(e) => Err(e),
        }
    }
}

/// A kind that is written and read back is the same kind, whatever follows
/// it.
pub proof fn lemma_sensor_kind_round_trip(kind: SensorKind, rest: Seq<u8>)
    ensures
        SensorKind::parse(kind.wire() + rest) == Ok::<(SensorKind, nat), Error>((kind, 1)),
{
}

} // verus!
