use vstd::prelude::*;

use crate::sensors::Hygrometer;
use crate::serde::ser::lemma_spliced_twice;
use crate::serde::{
    from_le_bytes, le_bytes, lemma_le_bytes_round_trip, Deserializable, Deserializer, Error,
    Serializable, Serializer,
};

verus! {

/// Summarizes the results of a sampling operation.
#[derive(Clone, Copy, Debug, PartialEq, Eq, Structural)]
pub struct Summary {
    /// Number of samples.
    pub n: u8,
    /// Average reading across all samples.
    pub avg: u16,
    /// Minimum reading across all samples.
    pub min: u16,
    /// Maximum reading across all samples.
    pub max: u16,
    /// Hygrometer model.
    pub hygrometer: Hygrometer,
}

impl Summary {
    /// The number of bytes that a summary takes on the wire.
    pub const WIDTH: usize = 8;
}

impl Serializable for Summary {
    /// The sample count, then average, minimum and maximum with their low
    /// byte first, then the model's tag.
    open spec fn wire(&self) -> Seq<u8> {
        seq![self.n] + le_bytes(self.avg) + le_bytes(self.min) + le_bytes(self.max)
            + self.hygrometer.wire()
    }

    fn serialize(&self, ser: &mut Serializer) -> (r: Result<usize, Error>) {
        if !ser.has_room(Summary::WIDTH) {
            return Err(Error::ErrBufferSmall);
        }
        let ghost out = ser.out@;
        let ghost pos = ser.pos as int;
        let mut n = ser.write_u8(self.n)?;
        n += ser.write_u16(self.avg)?;
        proof {
            lemma_spliced_twice(out, pos, seq![self.n], le_bytes(self.avg));
        }
        n += ser.write_u16(self.min)?;
        proof {
            lemma_spliced_twice(out, pos, seq![self.n] + le_bytes(self.avg), le_bytes(self.min));
        }
        n += ser.write_u16(self.max)?;
        proof {
            lemma_spliced_twice(
                out,
                pos,
                seq![self.n] + le_bytes(self.avg) + le_bytes(self.min),
                le_bytes(self.max),
            );
        }
        n += self.hygrometer.serialize(ser)?;
        proof {
            lemma_spliced_twice(
                out,
                pos,
                seq![self.n] + le_bytes(self.avg) + le_bytes(self.min) + le_bytes(self.max),
                self.hygrometer.wire(),
            );
        }
        Ok(n)
    }
}

impl Deserializable for Summary {
    open spec fn parse(bytes: Seq<u8>) -> Result<(Self, nat), Error> {
        if bytes.len() < 8 {
            Err(Error::ErrBufferSmall)
        } else {
            match Hygrometer::parse(bytes.skip(7)) {
                Ok((hygrometer, _)) => Ok(
                    (
                        Summary {
                            n: bytes[0],
                            avg: from_le_bytes(bytes[1], bytes[2]),
                            min: from_le_bytes(bytes[3], bytes[4]),
                            max: from_le_bytes(bytes[5], bytes[6]),
                            hygrometer,
                        },
                        8,
                    ),
                ),
                Err(e) => Err(e),
            }
        }
    }

    fn deserialize(de: &mut Deserializer) -> (r: Result<Self, Error>) {
        if !de.has(Summary::WIDTH) {
            return Err(Error::ErrBufferSmall);
        }
        let start = de.pos;
        let ghost bytes = de.remaining();
        let n = de.read_u8()?;
        let avg = de.read_u16()?;
        let min = de.read_u16()?;
        let max = de.read_u16()?;
        assert(de.remaining() =~= bytes.skip(7));
        match Hygrometer::deserialize(de) {
            Ok(hygrometer) => Ok(Self { n, avg, min, max, hygrometer }),
            Err(e) => {
                de.pos = start;
                Err(e)
            },
        }
    }
}

/// A summary that is written and read back is the same summary, whatever
/// follows it.
pub proof fn lemma_summary_round_trip(summary: Summary, rest: Seq<u8>)
    ensures
        summary.wire().len() == 8,
        Summary::parse(summary.wire() + rest) == Ok::<(Summary, nat), Error>((summary, 8)),
{
    lemma_le_bytes_round_trip(summary.avg);
    lemma_le_bytes_round_trip(summary.min);
    lemma_le_bytes_round_trip(summary.max);
    let bytes = summary.wire() + rest;
    assert(bytes.skip(7) =~= summary.hygrometer.wire() + rest);
}

} // verus!
