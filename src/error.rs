use vstd::prelude::*;

verus! {

/// What a structural check found wrong with the image.
#[derive(Clone, Copy, Debug, PartialEq, Eq, Structural)]
pub enum FormatIssue {
    /// The first two bytes are not `MZ`.
    DosMagic,
    /// The four bytes at `e_lfanew` are not `PE\0\0`.
    NtMagic,
    /// The optional header starts with neither `0x10B` nor `0x20B`.
    OptionalHeaderMagic,
    /// The file header names a machine outside the known set.
    Machine,
    /// A message entry is shorter than its own header.
    EntryLength,
    /// A message entry's flags select no known text encoding.
    EncodingFlags,
    /// A named directory entry stands among the ordinal ones, or the reverse.
    EntryOrder,
    /// A message-table leaf does not sit at type / name / language depth.
    ResourceLayout,
    /// The resource tree nests deeper than the walker follows.
    ResourceDepth,
}

/// Failure of a parse or a traversal.
#[derive(Clone, Copy, Debug, PartialEq, Eq, Structural)]
pub enum PeError {
    /// A structural validation failed.
    InvalidFormat(FormatIssue),
    /// A computed offset or length reaches past the addressed region.
    OutOfBounds,
    /// An RVA lies in no section.
    UnmappedAddress,
}

} // verus!
