use vstd::prelude::*;

use crate::bytes::{le_u16, read_u16};

verus! {

/// The `n` little-endian UTF-16 code units stored from `off` on.
pub open spec fn utf16_units(b: Seq<u8>, off: int, n: nat) -> Seq<u16> {
    Seq::new(n, |i: int| le_u16(b, off + 2 * i) as u16)
}

/// Text of a sequence of UTF-16 code units, unpaired surrogates replaced by U+FFFD.
pub uninterp spec fn utf16_lossy(units: Seq<u16>) -> Seq<char>;

/// Relies on `String::from_utf16_lossy`: decodes UTF-16, replacing what is malformed.
#[verifier::external_body]
fn string_from_utf16_lossy(units: &[u16]) -> (r: String)
    ensures
        r@ == utf16_lossy(units@),
{
    String::from_utf16_lossy(units)
}

/// Decodes `characters` little-endian UTF-16 code units stored from `offset` on.
pub fn utf16_from_slice(slice: &[u8], offset: usize, characters: usize) -> (r: String)
    requires
        offset + 2 * characters <= slice@.len(),
    ensures
        r@ == utf16_lossy(utf16_units(slice@, offset as int, characters as nat)),
{
    let mut name_chars: Vec<u16> = Vec::new();
    let n: usize = slice.len();
    let mut i: usize = 0;
    while i < characters
        invariant
            i <= characters,
            offset + 2 * characters <= slice@.len(),
            n == slice@.len(),
            name_chars@ == utf16_units(slice@, offset as int, i as nat),
        decreases characters - i,
    {
        let unit = read_u16(slice, offset + 2 * i);
        name_chars.push(unit);
        i = i + 1;
        assert(name_chars@ =~= utf16_units(slice@, offset as int, i as nat));
    }
    string_from_utf16_lossy(name_chars.as_slice())
}

} // verus!
