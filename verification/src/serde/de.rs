use vstd::prelude::*;

use super::{from_le_bytes, Error};

verus! {

broadcast use vstd::slice::group_slice_axioms;

/// A cursor that reads from a borrowed byte slice.
///
/// `input` is the whole source and `pos` the index of the next byte to be
/// read. A cursor whose `pos` lies behind the end of `input` reads nothing.
pub struct Deserializer<'input> {
    pub input: &'input [u8],
    pub pos: usize,
}

impl<'input> Deserializer<'input> {
    /// The bytes that have not been read yet.
    pub open spec fn remaining(&self) -> Seq<u8> {
        if self.pos <= self.input@.len() {
            self.input@.skip(self.pos as int)
        } else {
            Seq::empty()
        }
    }

    /// Whether `n` more bytes can be read.
    pub open spec fn holds(&self, n: nat) -> bool {
        self.pos + n <= self.input@.len()
    }

    /// A cursor at the start of `input`.
    pub fn new(input: &'input [u8]) -> (de: Self)
        ensures
            de.input@ == input@,
            de.pos == 0,
            de.remaining() == input@,
    {
        Self { input, pos: 0 }
    }

    /// Whether `n` more bytes can be read.
    pub fn has(&self, n: usize) -> (b: bool)
        ensures
            b == self.holds(n as nat),
    {
        let len = self.input.len();
        self.pos <= len && len - self.pos >= n
    }

    /// Reads one byte.
    pub fn read_u8(&mut self) -> (r: Result<u8, Error>)
        ensures
            final(self).input@ == old(self).input@,
            match r {
                Ok(value) => {
                    &&& old(self).holds(1)
                    &&& value == old(self).remaining()[0]
                    &&& final(self).pos == old(self).pos + 1
                },
                Err(e) => {
                    &&& e == Error::ErrBufferSmall
                    &&& !old(self).holds(1)
                    &&& final(self).pos == old(self).pos
                },
            },
    {
        match self.read::<1>() {
            Ok(bytes) => {
                assert(bytes@[0] == old(self).remaining().take(1)[0]);
                Ok(bytes[0])
            },
            Err(e) => Err(e),
        }
    }

    /// Reads two bytes as a number, least significant byte first.
    pub fn read_u16(&mut self) -> (r: Result<u16, Error>)
        ensures
            final(self).input@ == old(self).input@,
            match r {
                Ok(value) => {
                    &&& old(self).holds(2)
                    &&& value == from_le_bytes(old(self).remaining()[0], old(self).remaining()[1])
                    &&& final(self).pos == old(self).pos + 2
                },
                Err(e) => {
                    &&& e == Error::ErrBufferSmall
                    &&& !old(self).holds(2)
                    &&& final(self).pos == old(self).pos
                },
            },
    {
        match self.read::<2>() {
            Ok(bytes) => {
                assert(bytes@[0] == old(self).remaining().take(2)[0]);
                assert(bytes@[1] == old(self).remaining().take(2)[1]);
                let low: u16 = bytes[0] as u16;
                let high: u16 = bytes[1] as u16;
                Ok(low + 256 * high)
            },
            Err(e) => Err(e),
        }
    }

    fn read<const N: usize>(&mut self) -> (r: Result<[u8; N], Error>)
        ensures
            final(self).input@ == old(self).input@,
            match r {
                Ok(bytes) => {
                    &&& old(self).holds(N as nat)
                    &&& bytes@ == old(self).remaining().take(N as int)
                    &&& final(self).pos == old(self).pos + N
                },
                Err(e) => {
                    &&& e == Error::ErrBufferSmall
                    &&& !old(self).holds(N as nat)
                    &&& final(self).pos == old(self).pos
                },
            },
    {
        let len = self.input.len();
        if self.pos > len || len - self.pos < N {
            return Err(Error::ErrBufferSmall);
        }
        let mut bytes: [u8; N] = [0u8; N];
        let mut i: usize = 0;
        while i < N
            invariant
                i <= N,
                self.pos + N <= len,
                self.input@.len() == len,
                forall|k: int| 0 <= k < i ==> bytes@[k] == self.input@[self.pos + k],
            decreases N - i,
        {
            bytes[i] = self.input[self.pos + i];
            i += 1;
        }
        assert(bytes@ =~= self.remaining().take(N as int));
        self.pos += N;
        Ok(bytes)
    }
}

} // verus!
