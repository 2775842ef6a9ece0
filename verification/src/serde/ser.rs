use vstd::prelude::*;

use super::{le_bytes, Error};

verus! {

broadcast use vstd::slice::group_slice_axioms;

/// A cursor that writes into a borrowed byte slice.
///
/// `out` is the whole destination and `pos` the index of the next byte to be
/// written. A cursor whose `pos` lies behind the end of `out` writes nothing.
///
/// The fields are public so that contracts can speak of the contents that
/// the borrow of `out` ends with: every operation states that the cursor
/// stays on the slice that it was made for, and [`Serializer::new`] that
/// this slice is the caller's.
pub struct Serializer<'output> {
    pub out: &'output mut [u8],
    pub pos: usize,
}

/// What `out` holds once `bytes` have been written at index `pos`.
pub open spec fn spliced(out: Seq<u8>, pos: int, bytes: Seq<u8>) -> Seq<u8> {
    out.subrange(0, pos) + bytes + out.skip(pos + bytes.len())
}

/// Writing `first` and then `second` right behind it is writing the two
/// joined.
pub proof fn lemma_spliced_twice(out: Seq<u8>, pos: int, first: Seq<u8>, second: Seq<u8>)
    requires
        0 <= pos,
        pos + first.len() + second.len() <= out.len(),
    ensures
        spliced(spliced(out, pos, first), pos + first.len(), second) == spliced(
            out,
            pos,
            first + second,
        ),
{
    assert(spliced(spliced(out, pos, first), pos + first.len(), second) =~= spliced(
        out,
        pos,
        first + second,
    ));
}

impl<'output> Serializer<'output> {
    /// Whether `n` more bytes can be written.
    pub open spec fn fits(&self, n: nat) -> bool {
        self.pos + n <= self.out@.len()
    }

    /// How a write of `bytes` that returned `r` took the cursor from `self`
    /// to `after`: all of `bytes` are written where there is room for them,
    /// nothing is touched where there is not.
    pub open spec fn wrote(&self, after: &Self, bytes: Seq<u8>, r: Result<usize, Error>) -> bool {
        if self.fits(bytes.len()) {
            &&& r == Ok::<usize, Error>(bytes.len() as usize)
            &&& after.pos == self.pos + bytes.len()
            &&& after.out@ == spliced(self.out@, self.pos as int, bytes)
        } else {
            &&& r == Err::<usize, Error>(Error::ErrBufferSmall)
            &&& after.pos == self.pos
            &&& after.out@ == self.out@
        }
    }

    /// A cursor at the start of `out`.
    pub fn new(out: &'output mut [u8]) -> (ser: Self)
        ensures
            ser.out@ == old(out)@,
            ser.pos == 0,
            final(out)@ == final(ser.out)@,
    {
        Self { out, pos: 0 }
    }

    /// Whether `n` more bytes can be written.
    pub fn has_room(&self, n: usize) -> (b: bool)
        ensures
            b == self.fits(n as nat),
    {
        let len = self.out.len();
        self.pos <= len && len - self.pos >= n
    }

    /// Writes `value` as two bytes, least significant first.
    pub fn write_u16(&mut self, value: u16) -> (r: Result<usize, Error>)
        ensures
            final(final(self).out)@ == final(old(self).out)@,
            old(self).wrote(final(self), le_bytes(value), r),
    {
        let bytes: [u8; 2] = [(value % 256) as u8, (value / 256) as u8];
        assert(bytes@ =~= le_bytes(value));
        self.write(&bytes)
    }

    /// Writes `value` as one byte.
    pub fn write_u8(&mut self, value: u8) -> (r: Result<usize, Error>)
        ensures
            final(final(self).out)@ == final(old(self).out)@,
            old(self).wrote(final(self), seq![value], r),
    {
        let bytes: [u8; 1] = [value];
        assert(bytes@ =~= seq![value]);
        self.write(&bytes)
    }

    fn write(&mut self, value: &[u8]) -> (r: Result<usize, Error>)
        ensures
            final(final(self).out)@ == final(old(self).out)@,
            old(self).wrote(final(self), value@, r),
    {
        let n = value.len();
        let len = self.out.len();
        if self.pos > len || len - self.pos < n {
            return Err(Error::ErrBufferSmall);
        }
        let mut i: usize = 0;
        while i < n
            invariant
                n == value@.len(),
                i <= n,
                self.pos == old(self).pos,
                self.pos + n <= len,
                self.out@.len() == len,
                final(self.out)@ == final(old(self).out)@,
                forall|k: int| 0 <= k < self.pos ==> self.out@[k] == old(self).out@[k],
                forall|k: int| 0 <= k < i ==> self.out@[self.pos + k] == value@[k],
                forall|k: int|
                    self.pos + i <= k < self.out@.len() ==> self.out@[k] == old(self).out@[k],
            decreases n - i,
        {
            self.out[self.pos + i] = value[i];
            i += 1;
        }
        self.pos += n;
        assert(self.out@ =~= spliced(old(self).out@, old(self).pos as int, value@));
        Ok(n)
    }
}

} // verus!
