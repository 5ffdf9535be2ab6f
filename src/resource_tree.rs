use vstd::prelude::*;

use crate::error::{FormatIssue, PeError};
use crate::from_bytes::{decode_at, PackedSize, StructFromBytes};
use crate::walk::MAX_RESOURCE_DEPTH;
use crate::winnt::{IMAGE_RESOURCE_DATA_ENTRY, IMAGE_RESOURCE_DIRECTORY, IMAGE_RESOURCE_DIRECTORY_ENTRY};

verus! {

/// A child of a resource directory: a subdirectory or a leaf.
pub enum DirectoryEntryType {
    Directory(ImageResourceDirectory),
    Data(ImageResourceDataEntry),
}

/// A resource directory read with all that lies below it.
pub struct ImageResourceDirectory {
    pub raw_directory: IMAGE_RESOURCE_DIRECTORY,
    pub children: Vec<DirectoryEntryType>,
}

/// A leaf of the resource tree.
pub struct ImageResourceDataEntry {
    pub raw_entry: IMAGE_RESOURCE_DATA_ENTRY,
}

/// The `i`-th entry of the directory at `offset`.
pub open spec fn spec_directory_entry(res: Seq<u8>, offset: int, i: int) -> Result<
    IMAGE_RESOURCE_DIRECTORY_ENTRY,
    PeError,
> {
    decode_at::<IMAGE_RESOURCE_DIRECTORY_ENTRY>(res, offset + 16 + 8 * i)
}

/// Whether `d` is the directory at `offset` with all that lies below it, at
/// most `depth` levels of subdirectories deep.
pub open spec fn tree_matches(res: Seq<u8>, offset: int, depth: nat, d: ImageResourceDirectory) -> bool
    decreases depth, 3int,
{
    &&& decode_at::<IMAGE_RESOURCE_DIRECTORY>(res, offset) == Ok::<IMAGE_RESOURCE_DIRECTORY, PeError>(
        d.raw_directory,
    )
    &&& children_match(
        res,
        offset,
        d.raw_directory.NumberOfNamedEntries + d.raw_directory.NumberOfIdEntries,
        d.children@,
        depth,
    )
}

/// Whether `children` are the `count` children of the entry table at
/// `offset + 16`, each with all that lies below it.
pub open spec fn children_match(
    res: Seq<u8>,
    offset: int,
    count: int,
    children: Seq<DirectoryEntryType>,
    depth: nat,
) -> bool
    decreases depth, 2int,
{
    &&& children.len() == count
    &&& forall|i: int| 0 <= i < count ==> entry_child(res, offset, i, #[trigger] children[i], depth)
}

/// Whether `c` is what the `i`-th entry of the directory at `offset` points to.
pub open spec fn entry_child(res: Seq<u8>, offset: int, i: int, c: DirectoryEntryType, depth: nat) -> bool
    decreases depth, 1int,
{
    match spec_directory_entry(res, offset, i) {
        Ok(e) => child_matches(res, e, c, depth),
        Err(_) => false,
    }
}

/// Whether `c` is what the entry `e` points to: the subdirectory read at the
/// offset in its low 31 bits, with all below it, or the leaf read at its offset.
pub open spec fn child_matches(res: Seq<u8>, e: IMAGE_RESOURCE_DIRECTORY_ENTRY, c: DirectoryEntryType, depth: nat) -> bool
    decreases depth, 0int,
{
    if e.OffsetToData >= 0x8000_0000 {
        match c {
            DirectoryEntryType::Directory(d) => depth > 0 && tree_matches(
                res,
                e.OffsetToData - 0x8000_0000,
                (depth - 1) as nat,
                d,
            ),
            DirectoryEntryType::Data(_) => false,
        }
    } else {
        match c {
            DirectoryEntryType::Data(d) => decode_at::<IMAGE_RESOURCE_DATA_ENTRY>(
                res,
                e.OffsetToData as int,
            ) == Ok::<IMAGE_RESOURCE_DATA_ENTRY, PeError>(d.raw_entry),
            DirectoryEntryType::Directory(_) => false,
        }
    }
}

/// The first failure met reading the directory at `offset` and all below it,
/// at most `depth` levels of subdirectories deep; `None` where all of it reads.
pub open spec fn spec_parse_directory(res: Seq<u8>, offset: int, depth: nat) -> Option<PeError>
    decreases depth, 2int, 0int,
{
    match decode_at::<IMAGE_RESOURCE_DIRECTORY>(res, offset) {
        Err(e) => Some(e),
        Ok(d) => spec_parse_entries(
            res,
            offset + 16,
            (d.NumberOfNamedEntries + d.NumberOfIdEntries) as nat,
            depth,
        ),
    }
}

/// The first failure met reading the first `k` entries of the table at `start`
/// and what they point to.
pub open spec fn spec_parse_entries(res: Seq<u8>, start: int, k: nat, depth: nat) -> Option<PeError>
    decreases depth, 1int, k,
{
    if k == 0 {
        None
    } else {
        match spec_parse_entries(res, start, (k - 1) as nat, depth) {
            Some(e) => Some(e),
            None => match decode_at::<IMAGE_RESOURCE_DIRECTORY_ENTRY>(res, start + 8 * (k - 1)) {
                Err(e) => Some(e),
                Ok(e) => spec_parse_child(res, e, depth),
            },
        }
    }
}

/// The first failure met reading what the entry `e` points to.
pub open spec fn spec_parse_child(res: Seq<u8>, e: IMAGE_RESOURCE_DIRECTORY_ENTRY, depth: nat) -> Option<
    PeError,
>
    decreases depth, 0int, 0int,
{
    if e.OffsetToData >= 0x8000_0000 {
        if depth == 0 {
            Some(PeError::InvalidFormat(FormatIssue::ResourceDepth))
        } else {
            spec_parse_directory(res, e.OffsetToData - 0x8000_0000, (depth - 1) as nat)
        }
    } else {
        match decode_at::<IMAGE_RESOURCE_DATA_ENTRY>(res, e.OffsetToData as int) {
            Err(x) => Some(x),
            Ok(_) => None,
        }
    }
}

/// Once reading the first `k` entries fails, reading more of them fails the same way.
pub proof fn lemma_parse_entries_err(res: Seq<u8>, start: int, k: nat, n: nat, depth: nat)
    requires
        k <= n,
        spec_parse_entries(res, start, k, depth) is Some,
    ensures
        spec_parse_entries(res, start, n, depth) == spec_parse_entries(res, start, k, depth),
    decreases n - k,
{
    if k < n {
        lemma_parse_entries_err(res, start, k, (n - 1) as nat, depth);
    }
}

impl ImageResourceDirectory {
    /// Reads the directory at `offset` of the resource section and the whole
    /// tree below it.
    pub fn from_bytes(resources: &[u8], offset: usize) -> (r: Result<ImageResourceDirectory, PeError>)
        ensures
            r is Ok <==> spec_parse_directory(resources@, offset as int, MAX_RESOURCE_DEPTH as nat)
                is None,
            r matches Err(e) ==> spec_parse_directory(
                resources@,
                offset as int,
                MAX_RESOURCE_DEPTH as nat,
            ) == Some(e),
            decode_at::<IMAGE_RESOURCE_DIRECTORY>(resources@, offset as int) matches Err(e) ==> r
                == Err::<ImageResourceDirectory, PeError>(e),
            r matches Ok(d) ==> tree_matches(resources@, offset as int, MAX_RESOURCE_DEPTH as nat, d),
    {
        Self::parse_at(resources, offset, MAX_RESOURCE_DEPTH)
    }

    /// Reads the directory at `offset` and at most `depth` levels of subdirectories below it.
    fn parse_at(resources: &[u8], offset: usize, depth: usize) -> (r: Result<ImageResourceDirectory, PeError>)
        ensures
            r is Ok <==> spec_parse_directory(resources@, offset as int, depth as nat) is None,
            r matches Err(e) ==> spec_parse_directory(resources@, offset as int, depth as nat) == Some(
                e,
            ),
            decode_at::<IMAGE_RESOURCE_DIRECTORY>(resources@, offset as int) matches Err(e) ==> r
                == Err::<ImageResourceDirectory, PeError>(e),
            r matches Ok(d) ==> tree_matches(resources@, offset as int, depth as nat, d),
        decreases depth, 2usize,
    {
        let _len: usize = resources.len();
        let raw_directory = IMAGE_RESOURCE_DIRECTORY::from_bytes(resources, offset)?;
        let count = raw_directory.NumberOfNamedEntries as usize + raw_directory.NumberOfIdEntries as usize;
        let children = Self::parse_directory_entry_list(
            resources,
            offset + IMAGE_RESOURCE_DIRECTORY::packed_size(),
            count,
            depth,
        )?;
        Ok(ImageResourceDirectory { raw_directory, children })
    }

    /// Reads the `count` entries that start at `offset`, and what each points to.
    fn parse_directory_entry_list(resources: &[u8], offset: usize, count: usize, depth: usize) -> (r:
        Result<Vec<DirectoryEntryType>, PeError>)
        requires
            offset <= resources@.len(),
            offset >= 16,
        ensures
            r matches Ok(v) ==> children_match(resources@, offset - 16, count as int, v@, depth as nat),
            r is Ok <==> spec_parse_entries(resources@, offset as int, count as nat, depth as nat)
                is None,
            r matches Err(e) ==> spec_parse_entries(
                resources@,
                offset as int,
                count as nat,
                depth as nat,
            ) == Some(e),
        decreases depth, 1usize,
    {
        let len = resources.len();
        let mut children: Vec<DirectoryEntryType> = Vec::new();
        let mut idx: usize = 0;
        while idx < count
            invariant
                idx <= count,
                offset <= len,
                len == resources@.len(),
                offset >= 16,
                children@.len() == idx,
                forall|i: int|
                    0 <= i < idx ==> entry_child(
                        resources@,
                        offset - 16,
                        i,
                        #[trigger] children@[i],
                        depth as nat,
                    ),
                spec_parse_entries(resources@, offset as int, idx as nat, depth as nat) is None,
            decreases count - idx,
        {
            let ghost k1 = (idx + 1) as nat;
            assert((k1 - 1) as nat == idx);
            if (len - offset) / 8 < idx {
                proof {
                    assert(len - offset < 8 * idx) by (nonlinear_arith)
                        requires
                            (len - offset) / 8 < idx,
                            offset <= len,
                    ;
                    lemma_parse_entries_err(resources@, offset as int, k1, count as nat, depth as nat);
                }
                return Err(PeError::OutOfBounds);
            }
            let entry_offset = offset + idx * 8;
            let e = match IMAGE_RESOURCE_DIRECTORY_ENTRY::from_bytes(resources, entry_offset) {
                Ok(e) => e,
                Err(x) => {
                    proof {
                        lemma_parse_entries_err(resources@, offset as int, k1, count as nat, depth as nat);
                    }
                    return Err(x);
                },
            };
            let child = match Self::parse_directory_entry(resources, &e, depth) {
                Ok(c) => c,
                Err(x) => {
                    proof {
                        lemma_parse_entries_err(resources@, offset as int, k1, count as nat, depth as nat);
                    }
                    return Err(x);
                },
            };
            let ghost before = children@;
            children.push(child);
            assert forall|i: int| 0 <= i < idx + 1 implies entry_child(
                resources@,
                offset - 16,
                i,
                #[trigger] children@[i],
                depth as nat,
            ) by {
                if i < idx {
                    assert(children@[i] == before[i]);
                }
            }
            idx = idx + 1;
        }
        Ok(children)
    }

    /// Reads what the entry `e` points to.
    fn parse_directory_entry(resources: &[u8], e: &IMAGE_RESOURCE_DIRECTORY_ENTRY, depth: usize) -> (r:
        Result<DirectoryEntryType, PeError>)
        ensures
            r matches Ok(c) ==> child_matches(resources@, *e, c, depth as nat),
            r is Ok <==> spec_parse_child(resources@, *e, depth as nat) is None,
            r matches Err(x) ==> spec_parse_child(resources@, *e, depth as nat) == Some(x),
        decreases depth, 0usize,
    {
        if e.OffsetToData >= 0x8000_0000 {
            if depth == 0 {
                return Err(PeError::InvalidFormat(FormatIssue::ResourceDepth));
            }
            let entry_offset = (e.OffsetToData - 0x8000_0000) as usize;
            let child = Self::parse_at(resources, entry_offset, depth - 1)?;
            Ok(DirectoryEntryType::Directory(child))
        } else {
            let child = ImageResourceDataEntry::from_bytes(resources, e.OffsetToData as usize)?;
            Ok(DirectoryEntryType::Data(child))
        }
    }
}

impl ImageResourceDataEntry {
    /// Reads the leaf at `offset` of the resource section.
    pub fn from_bytes(resources: &[u8], offset: usize) -> (r: Result<ImageResourceDataEntry, PeError>)
        ensures
            match r {
                Ok(d) => decode_at::<IMAGE_RESOURCE_DATA_ENTRY>(resources@, offset as int) == Ok::<
                    IMAGE_RESOURCE_DATA_ENTRY,
                    PeError,
                >(d.raw_entry),
                Err(e) => decode_at::<IMAGE_RESOURCE_DATA_ENTRY>(resources@, offset as int) == Err::<
                    IMAGE_RESOURCE_DATA_ENTRY,
                    PeError,
                >(e),
            },
    {
        let raw_entry = IMAGE_RESOURCE_DATA_ENTRY::from_bytes(resources, offset)?;
        Ok(ImageResourceDataEntry { raw_entry })
    }
}

} // verus!
