use vstd::prelude::*;

use crate::bytes::{le_u16, read_u16};
use crate::error::{FormatIssue, PeError};
use crate::utils::{utf16_from_slice, utf16_lossy, utf16_units};
use crate::winnt::IMAGE_RESOURCE_DIRECTORY_ENTRY;

verus! {

/// Label of one edge on the path from the root of the resource tree.
#[derive(Debug)]
pub enum EntryIdentifier {
    Name(String),
    Id(u16),
    /// Label of the synthetic root, which no entry leads to.
    NoIdentifier,
}

/// Mathematical value of an `EntryIdentifier`.
pub enum IdentifierView {
    Name(Seq<char>),
    Id(u16),
    NoIdentifier,
}

impl View for EntryIdentifier {
    type V = IdentifierView;

    open spec fn view(&self) -> IdentifierView {
        match self {
            EntryIdentifier::Name(s) => IdentifierView::Name(s@),
            EntryIdentifier::Id(id) => IdentifierView::Id(*id),
            EntryIdentifier::NoIdentifier => IdentifierView::NoIdentifier,
        }
    }
}

impl Clone for EntryIdentifier {
    fn clone(&self) -> (r: Self)
        ensures
            r == *self,
    {
        match self {
            EntryIdentifier::Name(s) => EntryIdentifier::Name(s.clone()),
            EntryIdentifier::Id(id) => EntryIdentifier::Id(*id),
            EntryIdentifier::NoIdentifier => EntryIdentifier::NoIdentifier,
        }
    }
}

/// The name stored at `off` of the resource section: a 16-bit count of code
/// units, then the UTF-16LE units.
pub open spec fn spec_name_at(res: Seq<u8>, off: int) -> Result<Seq<char>, PeError> {
    if off + 2 > res.len() {
        Err(PeError::OutOfBounds)
    } else if off + 2 + 2 * le_u16(res, off) > res.len() {
        Err(PeError::OutOfBounds)
    } else {
        Ok(utf16_lossy(utf16_units(res, off + 2, le_u16(res, off) as nat)))
    }
}

impl IMAGE_RESOURCE_DIRECTORY_ENTRY {
    pub open spec fn spec_is_named(self) -> bool {
        self.Name >= 0x8000_0000
    }

    /// The label this entry gives the node it leads to.
    pub open spec fn spec_identifier(self, res: Seq<u8>) -> Result<IdentifierView, PeError> {
        if self.spec_is_named() {
            match spec_name_at(res, self.Name - 0x8000_0000) {
                Ok(s) => Ok(IdentifierView::Name(s)),
                Err(e) => Err(e),
            }
        } else {
            Ok(IdentifierView::Id((self.Name % 0x1_0000) as u16))
        }
    }

    /// Reads the label of this entry: the name it points to within `resources`,
    /// or its ordinal.
    pub fn parse_identifier(&self, resources: &[u8]) -> (r: Result<EntryIdentifier, PeError>)
        ensures
            match r {
                Ok(id) => self.spec_identifier(resources@) == Ok::<IdentifierView, PeError>(id@),
                Err(e) => self.spec_identifier(resources@) == Err::<IdentifierView, PeError>(e),
            },
    {
        if self.is_named_entry() {
            let offset_to_name = (self.Name - 0x8000_0000) as usize;
            let len = resources.len();
            if offset_to_name > len || len - offset_to_name < 2 {
                return Err(PeError::OutOfBounds);
            }
            let length = read_u16(resources, offset_to_name) as usize;
            if len - offset_to_name - 2 < 2 * length {
                return Err(PeError::OutOfBounds);
            }
            let name = utf16_from_slice(resources, offset_to_name + 2, length);
            Ok(EntryIdentifier::Name(name))
        } else {
            Ok(EntryIdentifier::Id((self.Name % 0x1_0000) as u16))
        }
    }

    /// The label of the entry at `index` of a directory whose first `named_count`
    /// entries are named: entries stand named first, then ordinal, and an entry
    /// whose tag bit disagrees with its place is refused.
    pub open spec fn spec_identifier_at(self, res: Seq<u8>, index: int, named_count: int) -> Result<
        IdentifierView,
        PeError,
    > {
        if self.spec_is_named() != (index < named_count) {
            Err(PeError::InvalidFormat(FormatIssue::EntryOrder))
        } else {
            self.spec_identifier(res)
        }
    }

    /// Reads the label of the entry at `index` of a directory with `named_count`
    /// named entries.
    pub fn identifier_at(&self, resources: &[u8], index: usize, named_count: usize) -> (r: Result<
        EntryIdentifier,
        PeError,
    >)
        ensures
            match r {
                Ok(id) => self.spec_identifier_at(resources@, index as int, named_count as int)
                    == Ok::<IdentifierView, PeError>(id@),
                Err(e) => self.spec_identifier_at(resources@, index as int, named_count as int)
                    == Err::<IdentifierView, PeError>(e),
            },
            r matches Ok(id) ==> (index < named_count <==> id is Name),
            r matches Ok(id) ==> (index >= named_count <==> id is Id),
    {
        if self.is_named_entry() != (index < named_count) {
            return Err(PeError::InvalidFormat(FormatIssue::EntryOrder));
        }
        self.parse_identifier(resources)
    }

    /// Whether the top bit of `Name` marks a named entry rather than an ordinal one.
    pub fn is_named_entry(&self) -> (r: bool)
        ensures
            r == self.spec_is_named(),
    {
        self.Name >= 0x8000_0000
    }
}

} // verus!
