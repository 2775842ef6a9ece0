use vstd::prelude::*;
use vstd::wrapping::u16_specs::{wrapping_add, wrapping_sub};

use crate::serde::ser::lemma_spliced_twice;
use crate::serde::{
    from_le_bytes, le_bytes, lemma_le_bytes_round_trip, Deserializable, Deserializer, Error,
    Serializable, Serializer,
};

verus! {

/// The readings of one measurement cycle: their average and their extremes.
///
/// `min <= avg <= max` is expected of a record and nothing enforces it. The
/// compact codec subtracts as 16-bit unsigned arithmetic does, so a record
/// out of that order has deltas that wrapped around.
#[derive(Clone, Copy, Debug, PartialEq, Eq, Structural)]
pub struct SampleResult {
    /// Average reading across all samples.
    pub avg: u16,
    /// Minimum reading across all samples.
    pub min: u16,
    /// Maximum reading across all samples.
    pub max: u16,
}

impl SampleResult {
    /// The number of bytes that a record takes in compact form.
    pub const WIDTH: usize = 4;

    /// How far the minimum lies below the average: the average less the
    /// minimum, as 16-bit unsigned subtraction gives it.
    pub open spec fn min_delta(&self) -> u16 {
        wrapping_sub(self.avg, self.min)
    }

    /// How far the maximum lies above the average: the maximum less the
    /// average, as 16-bit unsigned subtraction gives it.
    pub open spec fn max_delta(&self) -> u16 {
        wrapping_sub(self.max, self.avg)
    }

    /// Whether the record has a compact form: each delta fits one byte.
    pub open spec fn is_compact(&self) -> bool {
        self.min_delta() <= 255 && self.max_delta() <= 255
    }

    /// The compact form: the average with its low byte first, then the two
    /// deltas.
    pub open spec fn compact(&self) -> Seq<u8> {
        le_bytes(self.avg) + seq![self.min_delta() as u8, self.max_delta() as u8]
    }

    /// The record that the first four of `bytes` are the compact form of.
    pub open spec fn from_compact(bytes: Seq<u8>) -> SampleResult {
        let avg = from_le_bytes(bytes[0], bytes[1]);
        SampleResult {
            avg,
            min: wrapping_sub(avg, bytes[2] as u16),
            max: wrapping_add(avg, bytes[3] as u16),
        }
    }
}

impl Serializable for SampleResult {
    /// The plain form: average, minimum and maximum, each with its low byte
    /// first.
    open spec fn wire(&self) -> Seq<u8> {
        le_bytes(self.avg) + le_bytes(self.min) + le_bytes(self.max)
    }

    fn serialize(&self, ser: &mut Serializer) -> (r: Result<usize, Error>) {
        if !ser.has_room(6) {
            return Err(Error::ErrBufferSmall);
        }
        let ghost out = ser.out@;
        let ghost pos = ser.pos as int;
        let mut n = ser.write_u16(self.avg)?;
        n += ser.write_u16(self.min)?;
        proof {
            lemma_spliced_twice(out, pos, le_bytes(self.avg), le_bytes(self.min));
        }
        n += ser.write_u16(self.max)?;
        proof {
            lemma_spliced_twice(
                out,
                pos,
                le_bytes(self.avg) + le_bytes(self.min),
                le_bytes(self.max),
            );
        }
        Ok(n)
    }
}

impl Deserializable for SampleResult {
    open spec fn parse(bytes: Seq<u8>) -> Result<(Self, nat), Error> {
        if bytes.len() < 6 {
            Err(Error::ErrBufferSmall)
        } else {
            Ok(
                (
                    SampleResult {
                        avg: from_le_bytes(bytes[0], bytes[1]),
                        min: from_le_bytes(bytes[2], bytes[3]),
                        max: from_le_bytes(bytes[4], bytes[5]),
                    },
                    6,
                ),
            )
        }
    }

    fn deserialize(de: &mut Deserializer) -> (r: Result<Self, Error>) {
        if !de.has(6) {
            return Err(Error::ErrBufferSmall);
        }
        let avg = de.read_u16()?;
        let min = de.read_u16()?;
        let max = de.read_u16()?;
        Ok(Self { avg, min, max })
    }
}

/// A record that is written in plain form and read back is the same record,
/// whatever follows it.
pub proof fn lemma_plain_round_trip(sample: SampleResult, rest: Seq<u8>)
    ensures
        sample.wire().len() == 6,
        SampleResult::parse(sample.wire() + rest) == Ok::<(SampleResult, nat), Error>(
            (sample, 6),
        ),
{
    lemma_le_bytes_round_trip(sample.avg);
    lemma_le_bytes_round_trip(sample.min);
    lemma_le_bytes_round_trip(sample.max);
}

/// In a record whose readings are in order the deltas are the plain
/// differences.
pub proof fn lemma_ordered_deltas(sample: SampleResult)
    requires
        sample.min <= sample.avg <= sample.max,
    ensures
        sample.min_delta() == sample.avg - sample.min,
        sample.max_delta() == sample.max - sample.avg,
{
}

/// Round trip: a record in order whose deltas fit one byte each has a compact
/// form of four bytes, and those bytes, whatever follows them, read back as
/// the record.
pub proof fn lemma_compact_round_trip(sample: SampleResult, rest: Seq<u8>)
    requires
        sample.min <= sample.avg <= sample.max,
        sample.avg - sample.min <= 255,
        sample.max - sample.avg <= 255,
    ensures
        sample.is_compact(),
        sample.compact().len() == 4,
        SampleResult::from_compact(sample.compact() + rest) == sample,
{
    lemma_le_bytes_round_trip(sample.avg);
}

/// Delta overflow: a record in order with a reading more than 255 away from
/// the average has no compact form.
pub proof fn lemma_delta_overflow(sample: SampleResult)
    requires
        sample.min <= sample.avg <= sample.max,
        sample.avg - sample.min > 255 || sample.max - sample.avg > 255,
    ensures
        !sample.is_compact(),
{
}

} // verus!
