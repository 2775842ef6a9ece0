use vstd::prelude::*;

use super::SampleResult;
use crate::serde;

verus! {

/// Reads records in compact form.
pub struct Deserializer<'input> {
    pub de: serde::Deserializer<'input>,
}

impl<'input> Deserializer<'input> {
    /// A deserializer at the start of `input`.
    pub fn new(input: &'input [u8]) -> (d: Self)
        ensures
            d.de.input@ == input@,
            d.de.pos == 0,
            d.de.remaining() == input@,
    {
        Self { de: serde::Deserializer::new(input) }
    }

    /// Reads the record whose compact form stands at the cursor and moves
    /// past it. The extremes are the average less the first delta and plus
    /// the second, as 16-bit unsigned arithmetic gives them.
    pub fn deserialize(&mut self) -> (r: Result<SampleResult, serde::Error>)
        ensures
            final(self).de.input@ == old(self).de.input@,
            match r {
                Ok(sample) => {
                    &&& old(self).de.holds(4)
                    &&& sample == SampleResult::from_compact(old(self).de.remaining())
                    &&& final(self).de.pos == old(self).de.pos + 4
                },
                Err(e) => {
                    &&& e == serde::Error::ErrBufferSmall
                    &&& !old(self).de.holds(4)
                    &&& final(self).de.pos == old(self).de.pos
                },
            },
    {
        if !self.de.has(SampleResult::WIDTH) {
            return Err(serde::Error::ErrBufferSmall);
        }
        let ghost bytes = self.de.remaining();
        let avg = self.de.read_u16()?;
        assert(self.de.remaining() =~= bytes.skip(2));
        let min_delta = self.de.read_u8()? as u16;
        assert(self.de.remaining() =~= bytes.skip(3));
        let max_delta = self.de.read_u8()? as u16;
        Ok(SampleResult { avg, min: avg.wrapping_sub(min_delta), max: avg.wrapping_add(max_delta) })
    }
}

} // verus!
