use vstd::prelude::*;

use crate::error::PeError;

verus! {

/// A fixed-layout record whose encoded form has a known size, with no padding.
pub trait PackedSize {
    /// Number of bytes of the encoded record.
    spec fn spec_packed_size() -> nat;

    fn packed_size() -> (r: usize)
        ensures
            r as nat == Self::spec_packed_size(),
    ;
}

/// A fixed-layout record that can be decoded from unaligned little-endian bytes.
pub trait StructFromBytes: PackedSize + Sized {
    /// The record that the bytes `b`, exactly `spec_packed_size()` of them, encode.
    spec fn spec_from_bytes(b: Seq<u8>) -> Result<Self, PeError>;

    /// Decodes the record that starts at `offset`.
    fn from_bytes(slice: &[u8], offset: usize) -> (r: Result<Self, PeError>)
        ensures
            offset + Self::spec_packed_size() > slice@.len() ==> r == Err::<Self, PeError>(
                PeError::OutOfBounds,
            ),
            offset + Self::spec_packed_size() <= slice@.len() ==> r == Self::spec_from_bytes(
                slice@.subrange(offset as int, offset + Self::spec_packed_size()),
            ),
    ;
}

/// Decoding of a `T` at `off` in `b`: `OutOfBounds` unless all its bytes are present.
pub open spec fn decode_at<T: StructFromBytes>(b: Seq<u8>, off: int) -> Result<T, PeError> {
    if off < 0 || off + T::spec_packed_size() > b.len() {
        Err(PeError::OutOfBounds)
    } else {
        T::spec_from_bytes(b.subrange(off, off + T::spec_packed_size()))
    }
}

/// Decoding of `n` consecutive `T` records from `off` on: the first failure, or all of them.
pub open spec fn decode_seq<T: StructFromBytes>(b: Seq<u8>, off: int, n: nat) -> Result<Seq<T>, PeError>
    decreases n,
{
    if n == 0 {
        Ok(Seq::empty())
    } else {
        match decode_seq::<T>(b, off, (n - 1) as nat) {
            Err(e) => Err(e),
            Ok(s) => match decode_at::<T>(b, off + (n - 1) * T::spec_packed_size()) {
                Err(e) => Err(e),
                Ok(v) => Ok(s.push(v)),
            },
        }
    }
}

impl PackedSize for u8 {
    open spec fn spec_packed_size() -> nat {
        1
    }

    fn packed_size() -> (r: usize) {
        1
    }
}

impl PackedSize for u16 {
    open spec fn spec_packed_size() -> nat {
        2
    }

    fn packed_size() -> (r: usize) {
        2
    }
}

impl PackedSize for u32 {
    open spec fn spec_packed_size() -> nat {
        4
    }

    fn packed_size() -> (r: usize) {
        4
    }
}

impl PackedSize for u64 {
    open spec fn spec_packed_size() -> nat {
        8
    }

    fn packed_size() -> (r: usize) {
        8
    }
}

impl PackedSize for u128 {
    open spec fn spec_packed_size() -> nat {
        16
    }

    fn packed_size() -> (r: usize) {
        16
    }
}

impl PackedSize for i8 {
    open spec fn spec_packed_size() -> nat {
        1
    }

    fn packed_size() -> (r: usize) {
        1
    }
}

impl PackedSize for i16 {
    open spec fn spec_packed_size() -> nat {
        2
    }

    fn packed_size() -> (r: usize) {
        2
    }
}

impl PackedSize for i32 {
    open spec fn spec_packed_size() -> nat {
        4
    }

    fn packed_size() -> (r: usize) {
        4
    }
}

impl PackedSize for i64 {
    open spec fn spec_packed_size() -> nat {
        8
    }

    fn packed_size() -> (r: usize) {
        8
    }
}

impl PackedSize for i128 {
    open spec fn spec_packed_size() -> nat {
        16
    }

    fn packed_size() -> (r: usize) {
        16
    }
}

impl PackedSize for [u8; 8] {
    open spec fn spec_packed_size() -> nat {
        8
    }

    fn packed_size() -> (r: usize) {
        8
    }
}

impl PackedSize for [u16; 4] {
    open spec fn spec_packed_size() -> nat {
        8
    }

    fn packed_size() -> (r: usize) {
        8
    }
}

impl PackedSize for [u16; 10] {
    open spec fn spec_packed_size() -> nat {
        20
    }

    fn packed_size() -> (r: usize) {
        20
    }
}

} // verus!
