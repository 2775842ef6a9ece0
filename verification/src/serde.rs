//! Serialization and deserialization.
//!
//! A [`Serializer`] is a cursor that writes into a caller's byte slice, a
//! [`Deserializer`] is a cursor that reads from one. Both are all-or-nothing:
//! an operation that fails leaves the cursor and the bytes as they were.

use vstd::prelude::*;

pub mod de;
pub mod ser;

pub use de::Deserializer;
pub use ser::Serializer;

verus! {

/// Why a value could not be written or read.
#[derive(Debug, Clone, Copy, PartialEq, Eq, Structural)]
pub enum Error {
    /// The byte slice is shorter than the fixed width that is needed.
    ErrBufferSmall,
    /// A tag byte names no variant of the enum that is being read.
    ErrUnknownVariant,
}

/// A value with a fixed wire form.
pub trait Serializable where Self: Sized {
    /// The bytes that this value is written as.
    spec fn wire(&self) -> Seq<u8>;

    /// Writes the wire form at the cursor, or nothing where it does not fit.
    fn serialize(&self, ser: &mut Serializer) -> (r: Result<usize, Error>)
        ensures
            final(final(ser).out)@ == final(old(ser).out)@,
            old(ser).wrote(final(ser), self.wire(), r),
    ;
}

/// A value that can be read back from its wire form.
pub trait Deserializable where Self: Sized {
    /// What the front of `bytes` reads as, with the number of bytes that the
    /// value takes, or why it cannot be read.
    spec fn parse(bytes: Seq<u8>) -> Result<(Self, nat), Error>;

    /// Reads one value at the cursor and moves past it; a failed read leaves
    /// the cursor where it was.
    fn deserialize(de: &mut Deserializer) -> (r: Result<Self, Error>)
        ensures
            final(de).input@ == old(de).input@,
            match Self::parse(old(de).remaining()) {
                Ok((value, n)) => r == Ok::<Self, Error>(value) && final(de).pos == old(de).pos + n,
                Err(e) => r == Err::<Self, Error>(e) && final(de).pos == old(de).pos,
            },
    ;
}

/// How serializing a value with wire form `wire` into a slice that held
/// `before` ended: with the wire form at the front of the slice and its
/// length returned where the slice is long enough, with the slice unchanged
/// and `ErrBufferSmall` where it is not.
pub open spec fn serialized(
    wire: Seq<u8>,
    before: Seq<u8>,
    after: Seq<u8>,
    r: Result<usize, Error>,
) -> bool {
    if wire.len() <= before.len() {
        &&& r == Ok::<usize, Error>(wire.len() as usize)
        &&& after == wire + before.skip(wire.len() as int)
    } else {
        &&& r == Err::<usize, Error>(Error::ErrBufferSmall)
        &&& after == before
    }
}

/// Writes `value` at the start of `out` and returns the number of bytes
/// written. Where `out` is too short nothing is written.
pub fn serialize<T>(value: &T, out: &mut [u8]) -> (r: Result<usize, Error>) where T: Serializable
    ensures
        serialized(value.wire(), old(out)@, final(out)@, r),
{
    let mut se = Serializer::new(out);
    let r = value.serialize(&mut se);
    proof {
        if r is Ok {
            assert(se.out@ =~= value.wire() + old(out)@.skip(value.wire().len() as int));
        }
    }
    r
}

/// Reads one value from the start of `out`.
pub fn deserialize<T>(out: &[u8]) -> (r: Result<T, Error>) where T: Deserializable
    ensures
        match T::parse(out@) {
            Ok((value, _)) => r == Ok::<T, Error>(value),
            Err(e) => r == Err::<T, Error>(e),
        },
{
    let mut de = Deserializer::new(out);
    T::deserialize(&mut de)
}

/// The two bytes of `value`, least significant first.
pub open spec fn le_bytes(value: u16) -> Seq<u8> {
    seq![(value % 256) as u8, (value / 256) as u8]
}

/// The number whose little-endian bytes are `low`, `high`.
pub open spec fn from_le_bytes(low: u8, high: u8) -> u16 {
    (low + 256 * high) as u16
}

/// Reading back the bytes of a number gives the number.
pub proof fn lemma_le_bytes_round_trip(value: u16)
    ensures
        le_bytes(value).len() == 2,
        from_le_bytes(le_bytes(value)[0], le_bytes(value)[1]) == value,
{
}

/// Writing the number that two bytes stand for gives the two bytes.
pub proof fn lemma_from_le_bytes_round_trip(low: u8, high: u8)
    ensures
        le_bytes(from_le_bytes(low, high)) == seq![low, high],
{
    assert(le_bytes(from_le_bytes(low, high)) =~= seq![low, high]);
}

} // verus!
