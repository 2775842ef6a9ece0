use vstd::prelude::*;

use super::SampleResult;
use crate::serde;
use crate::serde::le_bytes;
use crate::serde::ser::{lemma_spliced_twice, spliced};

verus! {

/// Writes records in compact form.
pub struct Serializer<'output> {
    pub ser: serde::Serializer<'output>,
}

/// Why a record could not be written in compact form.
#[derive(Debug, Clone, Copy, PartialEq, Eq, Structural)]
pub enum Error {
    /// The destination is too short.
    Error(serde::Error),
    /// A reading lies more than 255 away from the average, so its delta does
    /// not fit one byte.
    ErrUnexpectedDeviation,
}

impl<'output> Serializer<'output> {
    /// A serializer at the start of `out`.
    pub fn new(out: &'output mut [u8]) -> (s: Self)
        ensures
            s.ser.out@ == old(out)@,
            s.ser.pos == 0,
            final(out)@ == final(s.ser.out)@,
    {
        Self { ser: serde::Serializer::new(out) }
    }

    /// Writes `sample` in compact form at the cursor.
    ///
    /// Fails, and writes nothing, where fewer than four bytes are left or,
    /// with four bytes left, where a delta does not fit one byte.
    pub fn serialize(&mut self, sample: &SampleResult) -> (r: Result<usize, Error>)
        ensures
            final(final(self).ser.out)@ == final(old(self).ser.out)@,
            match r {
                Ok(n) => {
                    &&& n == 4
                    &&& old(self).ser.fits(4)
                    &&& sample.is_compact()
                    &&& final(self).ser.pos == old(self).ser.pos + 4
                    &&& final(self).ser.out@ == spliced(
                        old(self).ser.out@,
                        old(self).ser.pos as int,
                        sample.compact(),
                    )
                },
                Err(e) => {
                    &&& final(self).ser.pos == old(self).ser.pos
                    &&& final(self).ser.out@ == old(self).ser.out@
                    &&& e == (if !old(self).ser.fits(4) {
                        Error::Error(serde::Error::ErrBufferSmall)
                    } else {
                        Error::ErrUnexpectedDeviation
                    })
                    &&& !old(self).ser.fits(4) || !sample.is_compact()
                },
            },
    {
        if !self.ser.has_room(SampleResult::WIDTH) {
            return Err(Error::Error(serde::Error::ErrBufferSmall));
        }
        let max_delta = sample.max.wrapping_sub(sample.avg);
        let min_delta = sample.avg.wrapping_sub(sample.min);
        if max_delta > 255 || min_delta > 255 {
            return Err(Error::ErrUnexpectedDeviation);
        }
        let ghost out = self.ser.out@;
        let ghost pos = self.ser.pos as int;
        let mut n = match self.ser.write_u16(sample.avg) {
            Ok(n) => n,
            Err(e) => return Err(Error::Error(e)),
        };
        n += match self.ser.write_u8(min_delta as u8) {
            Ok(n) => n,
            Err(e) => return Err(Error::Error(e)),
        };
        proof {
            lemma_spliced_twice(out, pos, le_bytes(sample.avg), seq![min_delta as u8]);
        }
        n += match self.ser.write_u8(max_delta as u8) {
            Ok(n) => n,
            Err(e) => return Err(Error::Error(e)),
        };
        proof {
            lemma_spliced_twice(
                out,
                pos,
                le_bytes(sample.avg) + seq![min_delta as u8],
                seq![max_delta as u8],
            );
            assert(le_bytes(sample.avg) + seq![min_delta as u8] + seq![max_delta as u8]
                =~= sample.compact());
        }
        Ok(n)
    }
}

} // verus!
