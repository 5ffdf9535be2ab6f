#![allow(non_snake_case, non_camel_case_types)]


pub mod bytes;
pub mod error;
pub mod from_bytes;
pub mod winnt;
pub mod utils;
pub mod resource;
pub mod resource_tree;
pub mod pefile;
pub mod walk;
pub mod visitor;
pub mod message;
pub mod table;
pub mod tree_dump;

pub use error::{FormatIssue, PeError};
pub use from_bytes::{PackedSize, StructFromBytes};
pub use message::{Message, MessageCursor, MessagesIterator};
pub use pefile::PEFile;
pub use resource::EntryIdentifier;
pub use resource_tree::{DirectoryEntryType, ImageResourceDataEntry, ImageResourceDirectory};
pub use table::{MessageTableVisitor, Messages};
pub use tree_dump::{TreeEvent, TreeRecorder};
pub use utils::utf16_from_slice;
pub use visitor::ResourceDirectoryVisitor;
pub use winnt::{
    IMAGE_DATA_DIRECTORY, IMAGE_DIRECTORY_ENTRY, IMAGE_DOS_HEADER, IMAGE_FILE_HEADER,
    IMAGE_FILE_HEADER_Machine, IMAGE_NT_OPTIONAL_HEADER, IMAGE_OPTIONAL_HEADER,
    IMAGE_OPTIONAL_HEADER32, IMAGE_OPTIONAL_HEADER64, IMAGE_RESOURCE_DATA_ENTRY,
    IMAGE_RESOURCE_DIRECTORY, IMAGE_RESOURCE_DIRECTORY_ENTRY, IMAGE_SECTION_HEADER,
    MESSAGE_RESOURCE_BLOCK, MESSAGE_RESOURCE_DATA, MESSAGE_RESOURCE_ENTRY,
};
