//! Formatting into a caller's byte slice.

use vstd::prelude::*;
use vstd::slice::slice_subrange;
use vstd::utf8::{decode_utf8, encode_utf8, valid_utf8};

use crate::serde::ser::spliced;

verus! {

broadcast use vstd::slice::group_slice_axioms;

/// A piece of text did not fit into the slice.
#[derive(Debug, Clone, Copy, PartialEq, Eq, Structural)]
pub struct Error;

/// Collects text in a borrowed byte slice.
///
/// `buf` is the whole destination. `len` counts the bytes of all the text
/// that was handed in: a writer whose `len` has passed the end of `buf` has
/// lost text, and stays that way.
pub struct FmtWriter<'out> {
    pub buf: &'out mut [u8],
    pub len: usize,
}

/// The text that `bytes` hold, by `core::str::from_utf8`.
///
/// Taken on trust of the standard library: the conversion succeeds on
/// well-formed UTF-8 and on nothing else, and the text that it gives is the
/// one whose encoding is `bytes`.
#[verifier::external_body]
fn str_from_utf8<'a>(bytes: &'a [u8]) -> (text: Option<&'a str>)
    ensures
        text is Some <==> valid_utf8(bytes@),
        text matches Some(s) ==> encode_utf8(s@) == bytes@,
{
    core::str::from_utf8(bytes).ok()
}

impl<'out> FmtWriter<'out> {
    /// Whether text has been lost because it did not fit.
    pub open spec fn overflowed(&self) -> bool {
        self.len > self.buf@.len()
    }

    /// The bytes of the text collected so far.
    pub open spec fn written(&self) -> Seq<u8> {
        self.buf@.subrange(0, self.len as int)
    }

    /// Well-formedness: no text was lost, and what was collected is
    /// well-formed UTF-8.
    pub open spec fn wf(&self) -> bool {
        &&& !self.overflowed()
        &&& valid_utf8(self.written())
    }

    /// A writer that has collected nothing.
    pub fn new(buf: &'out mut [u8]) -> (writer: Self)
        ensures
            writer.buf@ == old(buf)@,
            writer.len == 0,
            writer.wf(),
            final(buf)@ == final(writer.buf)@,
    {
        let writer = Self { buf, len: 0 };
        assert(writer.written() =~= Seq::<u8>::empty());
        writer
    }

    /// The text collected.
    pub fn get(self) -> (text: &'out str)
        requires
            self.wf(),
        ensures
            encode_utf8(text@) == self.written(),
            text@ == decode_utf8(self.written()),
            final(self.buf)@ == old(self.buf)@,
    {
        let buf: &'out [u8] = self.buf;
        let written = slice_subrange(buf, 0, self.len);
        match str_from_utf8(written) {
            Some(text) => {
                proof {
                    vstd::utf8::encode_utf8_decode_utf8(text@);
                }
                text
            },
            None => vstd::pervasive::unreached(),
        }
    }

    /// Appends `s`, as far as it fits.
    ///
    /// The bytes of `s` that fit are written behind the text collected so
    /// far, and `len` grows by the whole length of `s`. The call fails where
    /// `s` did not fit whole, and where text had been lost before.
    pub fn write_str(&mut self, s: &str) -> (r: Result<(), Error>)
        requires
            old(self).len + encode_utf8(s@).len() <= usize::MAX,
        ensures
            final(final(self).buf)@ == final(old(self).buf)@,
            old(self).overflowed() ==> {
                &&& r is Err
                &&& final(self).len == old(self).len
                &&& final(self).buf@ == old(self).buf@
            },
            !old(self).overflowed() ==> {
                let bytes = encode_utf8(s@);
                let room = old(self).buf@.len() - old(self).len;
                let num = if bytes.len() <= room {
                    bytes.len() as int
                } else {
                    room
                };
                &&& final(self).len == old(self).len + bytes.len()
                &&& final(self).buf@ == spliced(
                    old(self).buf@,
                    old(self).len as int,
                    bytes.take(num),
                )
                &&& r is Ok <==> bytes.len() <= room
            },
            old(self).wf() && r is Ok ==> {
                &&& final(self).wf()
                &&& final(self).written() == old(self).written() + encode_utf8(s@)
            },
    {
        let len = self.buf.len();
        if self.len > len {
            return Err(Error);
        }
        let raw_s = s.as_bytes();
        let room = len - self.len;
        let num = if raw_s.len() <= room {
            raw_s.len()
        } else {
            room
        };
        let mut i: usize = 0;
        while i < num
            invariant
                i <= num,
                num <= raw_s@.len(),
                self.len == old(self).len,
                self.len + num <= len,
                self.buf@.len() == len,
                final(self.buf)@ == final(old(self).buf)@,
                forall|k: int| 0 <= k < self.len ==> self.buf@[k] == old(self).buf@[k],
                forall|k: int| 0 <= k < i ==> self.buf@[self.len + k] == raw_s@[k],
                forall|k: int|
                    self.len + i <= k < len ==> self.buf@[k] == old(self).buf@[k],
            decreases num - i,
        {
            self.buf[self.len + i] = raw_s[i];
            i += 1;
        }
        proof {
            assert(self.buf@ =~= spliced(
                old(self).buf@,
                old(self).len as int,
                raw_s@.take(num as int),
            ));
            if old(self).wf() && num == raw_s@.len() {
                assert(raw_s@.take(num as int) =~= raw_s@);
                assert(self.buf@.subrange(0, self.len + num) =~= old(self).written() + raw_s@);
                vstd::utf8::encode_utf8_valid_utf8(s@);
                vstd::utf8::valid_utf8_concat(old(self).written(), raw_s@);
            }
        }
        self.len += raw_s.len();
        if num < raw_s.len() {
            Err(Error)
        } else {
            Ok(())
        }
    }
}

} // verus!
