use vstd::prelude::*;

use crate::bytes::{le_u16, le_u32, le_u64, read_u16, read_u32, read_u64, window};
use crate::error::{FormatIssue, PeError};
use crate::from_bytes::{PackedSize, StructFromBytes};

verus! {

/// Target machine named by the file header.
#[derive(Clone, Copy, Debug, PartialEq, Eq, Structural)]
pub enum IMAGE_FILE_HEADER_Machine {
    /// Intel 386.
    IMAGE_FILE_MACHINE_I386,
    /// Intel Itanium.
    IMAGE_FILE_MACHINE_IA64,
    /// x64.
    IMAGE_FILE_MACHINE_AMD64,
}

impl IMAGE_FILE_HEADER_Machine {
    /// The code that stands for this value in the image.
    pub open spec fn spec_code(self) -> u16 {
        match self {
            IMAGE_FILE_HEADER_Machine::IMAGE_FILE_MACHINE_I386 => 0x014c,
            IMAGE_FILE_HEADER_Machine::IMAGE_FILE_MACHINE_IA64 => 0x0200,
            IMAGE_FILE_HEADER_Machine::IMAGE_FILE_MACHINE_AMD64 => 0x8664,
        }
    }

    /// The value that `code` stands for, if any.
    pub open spec fn spec_from_u16(code: int) -> Option<Self> {
        if code == 0x014c {
            Some(IMAGE_FILE_HEADER_Machine::IMAGE_FILE_MACHINE_I386)
        } else if code == 0x0200 {
            Some(IMAGE_FILE_HEADER_Machine::IMAGE_FILE_MACHINE_IA64)
        } else if code == 0x8664 {
            Some(IMAGE_FILE_HEADER_Machine::IMAGE_FILE_MACHINE_AMD64)
        } else {
            None
        }
    }

    pub fn from_u16(code: u16) -> (r: Option<Self>)
        ensures
            r == Self::spec_from_u16(code as int),
    {
        if code == 0x014c {
            Some(IMAGE_FILE_HEADER_Machine::IMAGE_FILE_MACHINE_I386)
        } else if code == 0x0200 {
            Some(IMAGE_FILE_HEADER_Machine::IMAGE_FILE_MACHINE_IA64)
        } else if code == 0x8664 {
            Some(IMAGE_FILE_HEADER_Machine::IMAGE_FILE_MACHINE_AMD64)
        } else {
            None
        }
    }

    pub fn code(&self) -> (r: u16)
        ensures
            r == self.spec_code(),
    {
        match self {
            IMAGE_FILE_HEADER_Machine::IMAGE_FILE_MACHINE_I386 => 0x014c,
            IMAGE_FILE_HEADER_Machine::IMAGE_FILE_MACHINE_IA64 => 0x0200,
            IMAGE_FILE_HEADER_Machine::IMAGE_FILE_MACHINE_AMD64 => 0x8664,
        }
    }
}

/// Magic number at the start of the optional header.
#[derive(Clone, Copy, Debug, PartialEq, Eq, Structural)]
pub enum IMAGE_NT_OPTIONAL_HEADER {
    /// 32-bit image.
    IMAGE_NT_OPTIONAL_HDR32_MAGIC,
    /// 64-bit image.
    IMAGE_NT_OPTIONAL_HDR64_MAGIC,
    /// ROM image.
    IMAGE_ROM_OPTIONAL_HDR_MAGIC,
}

impl IMAGE_NT_OPTIONAL_HEADER {
    /// The code that stands for this value in the image.
    pub open spec fn spec_code(self) -> u16 {
        match self {
            IMAGE_NT_OPTIONAL_HEADER::IMAGE_NT_OPTIONAL_HDR32_MAGIC => 0x10b,
            IMAGE_NT_OPTIONAL_HEADER::IMAGE_NT_OPTIONAL_HDR64_MAGIC => 0x20b,
            IMAGE_NT_OPTIONAL_HEADER::IMAGE_ROM_OPTIONAL_HDR_MAGIC => 0x107,
        }
    }

    /// The value that `code` stands for, if any.
    pub open spec fn spec_from_u16(code: int) -> Option<Self> {
        if code == 0x10b {
            Some(IMAGE_NT_OPTIONAL_HEADER::IMAGE_NT_OPTIONAL_HDR32_MAGIC)
        } else if code == 0x20b {
            Some(IMAGE_NT_OPTIONAL_HEADER::IMAGE_NT_OPTIONAL_HDR64_MAGIC)
        } else if code == 0x107 {
            Some(IMAGE_NT_OPTIONAL_HEADER::IMAGE_ROM_OPTIONAL_HDR_MAGIC)
        } else {
            None
        }
    }

    pub fn from_u16(code: u16) -> (r: Option<Self>)
        ensures
            r == Self::spec_from_u16(code as int),
    {
        if code == 0x10b {
            Some(IMAGE_NT_OPTIONAL_HEADER::IMAGE_NT_OPTIONAL_HDR32_MAGIC)
        } else if code == 0x20b {
            Some(IMAGE_NT_OPTIONAL_HEADER::IMAGE_NT_OPTIONAL_HDR64_MAGIC)
        } else if code == 0x107 {
            Some(IMAGE_NT_OPTIONAL_HEADER::IMAGE_ROM_OPTIONAL_HDR_MAGIC)
        } else {
            None
        }
    }

    pub fn code(&self) -> (r: u16)
        ensures
            r == self.spec_code(),
    {
        match self {
            IMAGE_NT_OPTIONAL_HEADER::IMAGE_NT_OPTIONAL_HDR32_MAGIC => 0x10b,
            IMAGE_NT_OPTIONAL_HEADER::IMAGE_NT_OPTIONAL_HDR64_MAGIC => 0x20b,
            IMAGE_NT_OPTIONAL_HEADER::IMAGE_ROM_OPTIONAL_HDR_MAGIC => 0x107,
        }
    }
}

/// Legacy header at offset 0 of every image.
#[derive(Clone, Copy, Debug)]
pub struct IMAGE_DOS_HEADER {
    /// Signature, `MZ`.
    pub e_magic: u16,
    pub e_cblp: u16,
    pub e_cp: u16,
    pub e_crlc: u16,
    pub e_cparhdr: u16,
    pub e_minalloc: u16,
    pub e_maxalloc: u16,
    pub e_ss: u16,
    pub e_sp: u16,
    pub e_csum: u16,
    pub e_ip: u16,
    pub e_cs: u16,
    pub e_lfarlc: u16,
    pub e_ovno: u16,
    pub e_res: [u16; 4],
    pub e_oemid: u16,
    pub e_oeminfo: u16,
    pub e_res2: [u16; 10],
    /// File offset of the NT signature.
    pub e_lfanew: u32,
}

impl PackedSize for IMAGE_DOS_HEADER {
    open spec fn spec_packed_size() -> nat {
        64
    }

    fn packed_size() -> (r: usize) {
        64
    }
}

impl StructFromBytes for IMAGE_DOS_HEADER {
    open spec fn spec_from_bytes(b: Seq<u8>) -> Result<Self, PeError> {
        Ok(IMAGE_DOS_HEADER {
            e_magic: le_u16(b, 0) as u16,
            e_cblp: le_u16(b, 2) as u16,
            e_cp: le_u16(b, 4) as u16,
            e_crlc: le_u16(b, 6) as u16,
            e_cparhdr: le_u16(b, 8) as u16,
            e_minalloc: le_u16(b, 10) as u16,
            e_maxalloc: le_u16(b, 12) as u16,
            e_ss: le_u16(b, 14) as u16,
            e_sp: le_u16(b, 16) as u16,
            e_csum: le_u16(b, 18) as u16,
            e_ip: le_u16(b, 20) as u16,
            e_cs: le_u16(b, 22) as u16,
            e_lfarlc: le_u16(b, 24) as u16,
            e_ovno: le_u16(b, 26) as u16,
            e_res: [le_u16(b, 28) as u16, le_u16(b, 30) as u16, le_u16(b, 32) as u16, le_u16(b, 34) as u16],
            e_oemid: le_u16(b, 36) as u16,
            e_oeminfo: le_u16(b, 38) as u16,
            e_res2: [le_u16(b, 40) as u16, le_u16(b, 42) as u16, le_u16(b, 44) as u16, le_u16(b, 46) as u16, le_u16(b, 48) as u16, le_u16(b, 50) as u16, le_u16(b, 52) as u16, le_u16(b, 54) as u16, le_u16(b, 56) as u16, le_u16(b, 58) as u16],
            e_lfanew: le_u32(b, 60) as u32,
        })
    }

    fn from_bytes(slice: &[u8], offset: usize) -> (r: Result<Self, PeError>) {
        let w = match window(slice, offset, 64) {
            Some(w) => w,
            None => return Err(PeError::OutOfBounds),
        };
        Ok(IMAGE_DOS_HEADER {
            e_magic: read_u16(w, 0),
            e_cblp: read_u16(w, 2),
            e_cp: read_u16(w, 4),
            e_crlc: read_u16(w, 6),
            e_cparhdr: read_u16(w, 8),
            e_minalloc: read_u16(w, 10),
            e_maxalloc: read_u16(w, 12),
            e_ss: read_u16(w, 14),
            e_sp: read_u16(w, 16),
            e_csum: read_u16(w, 18),
            e_ip: read_u16(w, 20),
            e_cs: read_u16(w, 22),
            e_lfarlc: read_u16(w, 24),
            e_ovno: read_u16(w, 26),
            e_res: [read_u16(w, 28), read_u16(w, 30), read_u16(w, 32), read_u16(w, 34)],
            e_oemid: read_u16(w, 36),
            e_oeminfo: read_u16(w, 38),
            e_res2: [read_u16(w, 40), read_u16(w, 42), read_u16(w, 44), read_u16(w, 46), read_u16(w, 48), read_u16(w, 50), read_u16(w, 52), read_u16(w, 54), read_u16(w, 56), read_u16(w, 58)],
            e_lfanew: read_u32(w, 60),
        })
    }
}

/// COFF file header, right after the NT signature.
#[derive(Clone, Copy, Debug)]
pub struct IMAGE_FILE_HEADER {
    pub Machine: IMAGE_FILE_HEADER_Machine,
    pub NumberOfSections: u16,
    pub TimeDateStamp: u32,
    pub PointerToSymbolTable: u32,
    pub NumberOfSymbols: u32,
    pub SizeOfOptionalHeader: u16,
    pub Characteristics: u16,
}

impl PackedSize for IMAGE_FILE_HEADER {
    open spec fn spec_packed_size() -> nat {
        20
    }

    fn packed_size() -> (r: usize) {
        20
    }
}

impl StructFromBytes for IMAGE_FILE_HEADER {
    open spec fn spec_from_bytes(b: Seq<u8>) -> Result<Self, PeError> {
        match IMAGE_FILE_HEADER_Machine::spec_from_u16(le_u16(b, 0)) {
            Some(v) => Ok(IMAGE_FILE_HEADER {
                Machine: v,
                NumberOfSections: le_u16(b, 2) as u16,
                TimeDateStamp: le_u32(b, 4) as u32,
                PointerToSymbolTable: le_u32(b, 8) as u32,
                NumberOfSymbols: le_u32(b, 12) as u32,
                SizeOfOptionalHeader: le_u16(b, 16) as u16,
                Characteristics: le_u16(b, 18) as u16,
            }),
            None => Err(PeError::InvalidFormat(FormatIssue::Machine)),
        }
    }

    fn from_bytes(slice: &[u8], offset: usize) -> (r: Result<Self, PeError>) {
        let w = match window(slice, offset, 20) {
            Some(w) => w,
            None => return Err(PeError::OutOfBounds),
        };
        let Machine = match IMAGE_FILE_HEADER_Machine::from_u16(read_u16(w, 0)) {
            Some(v) => v,
            None => return Err(PeError::InvalidFormat(FormatIssue::Machine)),
        };
        Ok(IMAGE_FILE_HEADER {
            Machine: Machine,
            NumberOfSections: read_u16(w, 2),
            TimeDateStamp: read_u32(w, 4),
            PointerToSymbolTable: read_u32(w, 8),
            NumberOfSymbols: read_u32(w, 12),
            SizeOfOptionalHeader: read_u16(w, 16),
            Characteristics: read_u16(w, 18),
        })
    }
}

/// Optional header of a 32-bit image.
#[derive(Clone, Copy, Debug)]
pub struct IMAGE_OPTIONAL_HEADER32 {
    pub Magic: IMAGE_NT_OPTIONAL_HEADER,
    pub MajorLinkerVersion: u8,
    pub MinorLinkerVersion: u8,
    pub SizeOfCode: u32,
    pub SizeOfInitializedData: u32,
    pub SizeOfUninitializedData: u32,
    pub AddressOfEntryPoint: u32,
    pub BaseOfCode: u32,
    pub BaseOfData: u32,
    pub ImageBase: u32,
    pub SectionAlignment: u32,
    pub FileAlignment: u32,
    pub MajorOperatingSystemVersion: u16,
    pub MinorOperatingSystemVersion: u16,
    pub MajorImageVersion: u16,
    pub MinorImageVersion: u16,
    pub MajorSubsystemVersion: u16,
    pub MinorSubsystemVersion: u16,
    pub Win32VersionValue: u32,
    pub SizeOfImage: u32,
    pub SizeOfHeaders: u32,
    pub CheckSum: u32,
    pub Subsystem: u16,
    pub DllCharacteristics: u16,
    pub SizeOfStackReserve: u32,
    pub SizeOfStackCommit: u32,
    pub SizeOfHeapReserve: u32,
    pub SizeOfHeapCommit: u32,
    pub LoaderFlags: u32,
    /// Number of data-directory entries that follow.
    pub NumberOfRvaAndSizes: u32,
}

impl PackedSize for IMAGE_OPTIONAL_HEADER32 {
    open spec fn spec_packed_size() -> nat {
        96
    }

    fn packed_size() -> (r: usize) {
        96
    }
}

impl StructFromBytes for IMAGE_OPTIONAL_HEADER32 {
    open spec fn spec_from_bytes(b: Seq<u8>) -> Result<Self, PeError> {
        match IMAGE_NT_OPTIONAL_HEADER::spec_from_u16(le_u16(b, 0)) {
            Some(v) => Ok(IMAGE_OPTIONAL_HEADER32 {
                Magic: v,
                MajorLinkerVersion: b[2],
                MinorLinkerVersion: b[3],
                SizeOfCode: le_u32(b, 4) as u32,
                SizeOfInitializedData: le_u32(b, 8) as u32,
                SizeOfUninitializedData: le_u32(b, 12) as u32,
                AddressOfEntryPoint: le_u32(b, 16) as u32,
                BaseOfCode: le_u32(b, 20) as u32,
                BaseOfData: le_u32(b, 24) as u32,
                ImageBase: le_u32(b, 28) as u32,
                SectionAlignment: le_u32(b, 32) as u32,
                FileAlignment: le_u32(b, 36) as u32,
                MajorOperatingSystemVersion: le_u16(b, 40) as u16,
                MinorOperatingSystemVersion: le_u16(b, 42) as u16,
                MajorImageVersion: le_u16(b, 44) as u16,
                MinorImageVersion: le_u16(b, 46) as u16,
                MajorSubsystemVersion: le_u16(b, 48) as u16,
                MinorSubsystemVersion: le_u16(b, 50) as u16,
                Win32VersionValue: le_u32(b, 52) as u32,
                SizeOfImage: le_u32(b, 56) as u32,
                SizeOfHeaders: le_u32(b, 60) as u32,
                CheckSum: le_u32(b, 64) as u32,
                Subsystem: le_u16(b, 68) as u16,
                DllCharacteristics: le_u16(b, 70) as u16,
                SizeOfStackReserve: le_u32(b, 72) as u32,
                SizeOfStackCommit: le_u32(b, 76) as u32,
                SizeOfHeapReserve: le_u32(b, 80) as u32,
                SizeOfHeapCommit: le_u32(b, 84) as u32,
                LoaderFlags: le_u32(b, 88) as u32,
                NumberOfRvaAndSizes: le_u32(b, 92) as u32,
            }),
            None => Err(PeError::InvalidFormat(FormatIssue::OptionalHeaderMagic)),
        }
    }

    fn from_bytes(slice: &[u8], offset: usize) -> (r: Result<Self, PeError>) {
        let w = match window(slice, offset, 96) {
            Some(w) => w,
            None => return Err(PeError::OutOfBounds),
        };
        let Magic = match IMAGE_NT_OPTIONAL_HEADER::from_u16(read_u16(w, 0)) {
            Some(v) => v,
            None => return Err(PeError::InvalidFormat(FormatIssue::OptionalHeaderMagic)),
        };
        Ok(IMAGE_OPTIONAL_HEADER32 {
            Magic: Magic,
            MajorLinkerVersion: w[2],
            MinorLinkerVersion: w[3],
            SizeOfCode: read_u32(w, 4),
            SizeOfInitializedData: read_u32(w, 8),
            SizeOfUninitializedData: read_u32(w, 12),
            AddressOfEntryPoint: read_u32(w, 16),
            BaseOfCode: read_u32(w, 20),
            BaseOfData: read_u32(w, 24),
            ImageBase: read_u32(w, 28),
            SectionAlignment: read_u32(w, 32),
            FileAlignment: read_u32(w, 36),
            MajorOperatingSystemVersion: read_u16(w, 40),
            MinorOperatingSystemVersion: read_u16(w, 42),
            MajorImageVersion: read_u16(w, 44),
            MinorImageVersion: read_u16(w, 46),
            MajorSubsystemVersion: read_u16(w, 48),
            MinorSubsystemVersion: read_u16(w, 50),
            Win32VersionValue: read_u32(w, 52),
            SizeOfImage: read_u32(w, 56),
            SizeOfHeaders: read_u32(w, 60),
            CheckSum: read_u32(w, 64),
            Subsystem: read_u16(w, 68),
            DllCharacteristics: read_u16(w, 70),
            SizeOfStackReserve: read_u32(w, 72),
            SizeOfStackCommit: read_u32(w, 76),
            SizeOfHeapReserve: read_u32(w, 80),
            SizeOfHeapCommit: read_u32(w, 84),
            LoaderFlags: read_u32(w, 88),
            NumberOfRvaAndSizes: read_u32(w, 92),
        })
    }
}

/// Optional header of a 64-bit image.
#[derive(Clone, Copy, Debug)]
pub struct IMAGE_OPTIONAL_HEADER64 {
    pub Magic: IMAGE_NT_OPTIONAL_HEADER,
    pub MajorLinkerVersion: u8,
    pub MinorLinkerVersion: u8,
    pub SizeOfCode: u32,
    pub SizeOfInitializedData: u32,
    pub SizeOfUninitializedData: u32,
    pub AddressOfEntryPoint: u32,
    pub BaseOfCode: u32,
    pub ImageBase: u64,
    pub SectionAlignment: u32,
    pub FileAlignment: u32,
    pub MajorOperatingSystemVersion: u16,
    pub MinorOperatingSystemVersion: u16,
    pub MajorImageVersion: u16,
    pub MinorImageVersion: u16,
    pub MajorSubsystemVersion: u16,
    pub MinorSubsystemVersion: u16,
    pub Win32VersionValue: u32,
    pub SizeOfImage: u32,
    pub SizeOfHeaders: u32,
    pub CheckSum: u32,
    pub Subsystem: u16,
    pub DllCharacteristics: u16,
    pub SizeOfStackReserve: u64,
    pub SizeOfStackCommit: u64,
    pub SizeOfHeapReserve: u64,
    pub SizeOfHeapCommit: u64,
    pub LoaderFlags: u32,
    /// Number of data-directory entries that follow.
    pub NumberOfRvaAndSizes: u32,
}

impl PackedSize for IMAGE_OPTIONAL_HEADER64 {
    open spec fn spec_packed_size() -> nat {
        112
    }

    fn packed_size() -> (r: usize) {
        112
    }
}

impl StructFromBytes for IMAGE_OPTIONAL_HEADER64 {
    open spec fn spec_from_bytes(b: Seq<u8>) -> Result<Self, PeError> {
        match IMAGE_NT_OPTIONAL_HEADER::spec_from_u16(le_u16(b, 0)) {
            Some(v) => Ok(IMAGE_OPTIONAL_HEADER64 {
                Magic: v,
                MajorLinkerVersion: b[2],
                MinorLinkerVersion: b[3],
                SizeOfCode: le_u32(b, 4) as u32,
                SizeOfInitializedData: le_u32(b, 8) as u32,
                SizeOfUninitializedData: le_u32(b, 12) as u32,
                AddressOfEntryPoint: le_u32(b, 16) as u32,
                BaseOfCode: le_u32(b, 20) as u32,
                ImageBase: le_u64(b, 24) as u64,
                SectionAlignment: le_u32(b, 32) as u32,
                FileAlignment: le_u32(b, 36) as u32,
                MajorOperatingSystemVersion: le_u16(b, 40) as u16,
                MinorOperatingSystemVersion: le_u16(b, 42) as u16,
                MajorImageVersion: le_u16(b, 44) as u16,
                MinorImageVersion: le_u16(b, 46) as u16,
                MajorSubsystemVersion: le_u16(b, 48) as u16,
                MinorSubsystemVersion: le_u16(b, 50) as u16,
                Win32VersionValue: le_u32(b, 52) as u32,
                SizeOfImage: le_u32(b, 56) as u32,
                SizeOfHeaders: le_u32(b, 60) as u32,
                CheckSum: le_u32(b, 64) as u32,
                Subsystem: le_u16(b, 68) as u16,
                DllCharacteristics: le_u16(b, 70) as u16,
                SizeOfStackReserve: le_u64(b, 72) as u64,
                SizeOfStackCommit: le_u64(b, 80) as u64,
                SizeOfHeapReserve: le_u64(b, 88) as u64,
                SizeOfHeapCommit: le_u64(b, 96) as u64,
                LoaderFlags: le_u32(b, 104) as u32,
                NumberOfRvaAndSizes: le_u32(b, 108) as u32,
            }),
            None => Err(PeError::InvalidFormat(FormatIssue::OptionalHeaderMagic)),
        }
    }

    fn from_bytes(slice: &[u8], offset: usize) -> (r: Result<Self, PeError>) {
        let w = match window(slice, offset, 112) {
            Some(w) => w,
            None => return Err(PeError::OutOfBounds),
        };
        let Magic = match IMAGE_NT_OPTIONAL_HEADER::from_u16(read_u16(w, 0)) {
            Some(v) => v,
            None => return Err(PeError::InvalidFormat(FormatIssue::OptionalHeaderMagic)),
        };
        Ok(IMAGE_OPTIONAL_HEADER64 {
            Magic: Magic,
            MajorLinkerVersion: w[2],
            MinorLinkerVersion: w[3],
            SizeOfCode: read_u32(w, 4),
            SizeOfInitializedData: read_u32(w, 8),
            SizeOfUninitializedData: read_u32(w, 12),
            AddressOfEntryPoint: read_u32(w, 16),
            BaseOfCode: read_u32(w, 20),
            ImageBase: read_u64(w, 24),
            SectionAlignment: read_u32(w, 32),
            FileAlignment: read_u32(w, 36),
            MajorOperatingSystemVersion: read_u16(w, 40),
            MinorOperatingSystemVersion: read_u16(w, 42),
            MajorImageVersion: read_u16(w, 44),
            MinorImageVersion: read_u16(w, 46),
            MajorSubsystemVersion: read_u16(w, 48),
            MinorSubsystemVersion: read_u16(w, 50),
            Win32VersionValue: read_u32(w, 52),
            SizeOfImage: read_u32(w, 56),
            SizeOfHeaders: read_u32(w, 60),
            CheckSum: read_u32(w, 64),
            Subsystem: read_u16(w, 68),
            DllCharacteristics: read_u16(w, 70),
            SizeOfStackReserve: read_u64(w, 72),
            SizeOfStackCommit: read_u64(w, 80),
            SizeOfHeapReserve: read_u64(w, 88),
            SizeOfHeapCommit: read_u64(w, 96),
            LoaderFlags: read_u32(w, 104),
            NumberOfRvaAndSizes: read_u32(w, 108),
        })
    }
}

/// One entry of the data-directory table.
#[derive(Clone, Copy, Debug)]
pub struct IMAGE_DATA_DIRECTORY {
    pub VirtualAddress: u32,
    pub Size: u32,
}

impl PackedSize for IMAGE_DATA_DIRECTORY {
    open spec fn spec_packed_size() -> nat {
        8
    }

    fn packed_size() -> (r: usize) {
        8
    }
}

impl StructFromBytes for IMAGE_DATA_DIRECTORY {
    open spec fn spec_from_bytes(b: Seq<u8>) -> Result<Self, PeError> {
        Ok(IMAGE_DATA_DIRECTORY {
            VirtualAddress: le_u32(b, 0) as u32,
            Size: le_u32(b, 4) as u32,
        })
    }

    fn from_bytes(slice: &[u8], offset: usize) -> (r: Result<Self, PeError>) {
        let w = match window(slice, offset, 8) {
            Some(w) => w,
            None => return Err(PeError::OutOfBounds),
        };
        Ok(IMAGE_DATA_DIRECTORY {
            VirtualAddress: read_u32(w, 0),
            Size: read_u32(w, 4),
        })
    }
}

/// One entry of the section table.
#[derive(Clone, Copy, Debug)]
pub struct IMAGE_SECTION_HEADER {
    /// Section name, not necessarily NUL-terminated.
    pub Name: [u8; 8],
    /// Virtual size of the section.
    pub Misc: u32,
    pub VirtualAddress: u32,
    pub SizeOfRawData: u32,
    pub PointerToRawData: u32,
    pub PointerToRelocations: u32,
    pub PointerToLinenumbers: u32,
    pub NumberOfRelocations: u16,
    pub NumberOfLinenumbers: u16,
    pub Characteristics: u32,
}

impl PackedSize for IMAGE_SECTION_HEADER {
    open spec fn spec_packed_size() -> nat {
        40
    }

    fn packed_size() -> (r: usize) {
        40
    }
}

impl StructFromBytes for IMAGE_SECTION_HEADER {
    open spec fn spec_from_bytes(b: Seq<u8>) -> Result<Self, PeError> {
        Ok(IMAGE_SECTION_HEADER {
            Name: [b[0], b[1], b[2], b[3], b[4], b[5], b[6], b[7]],
            Misc: le_u32(b, 8) as u32,
            VirtualAddress: le_u32(b, 12) as u32,
            SizeOfRawData: le_u32(b, 16) as u32,
            PointerToRawData: le_u32(b, 20) as u32,
            PointerToRelocations: le_u32(b, 24) as u32,
            PointerToLinenumbers: le_u32(b, 28) as u32,
            NumberOfRelocations: le_u16(b, 32) as u16,
            NumberOfLinenumbers: le_u16(b, 34) as u16,
            Characteristics: le_u32(b, 36) as u32,
        })
    }

    fn from_bytes(slice: &[u8], offset: usize) -> (r: Result<Self, PeError>) {
        let w = match window(slice, offset, 40) {
            Some(w) => w,
            None => return Err(PeError::OutOfBounds),
        };
        Ok(IMAGE_SECTION_HEADER {
            Name: [w[0], w[1], w[2], w[3], w[4], w[5], w[6], w[7]],
            Misc: read_u32(w, 8),
            VirtualAddress: read_u32(w, 12),
            SizeOfRawData: read_u32(w, 16),
            PointerToRawData: read_u32(w, 20),
            PointerToRelocations: read_u32(w, 24),
            PointerToLinenumbers: read_u32(w, 28),
            NumberOfRelocations: read_u16(w, 32),
            NumberOfLinenumbers: read_u16(w, 34),
            Characteristics: read_u32(w, 36),
        })
    }
}

/// Header of one directory of the resource tree.
#[derive(Clone, Copy, Debug)]
pub struct IMAGE_RESOURCE_DIRECTORY {
    pub Characteristics: u32,
    pub TimeDateStamp: u32,
    pub MajorVersion: u16,
    pub MinorVersion: u16,
    pub NumberOfNamedEntries: u16,
    pub NumberOfIdEntries: u16,
}

impl PackedSize for IMAGE_RESOURCE_DIRECTORY {
    open spec fn spec_packed_size() -> nat {
        16
    }

    fn packed_size() -> (r: usize) {
        16
    }
}

impl StructFromBytes for IMAGE_RESOURCE_DIRECTORY {
    open spec fn spec_from_bytes(b: Seq<u8>) -> Result<Self, PeError> {
        Ok(IMAGE_RESOURCE_DIRECTORY {
            Characteristics: le_u32(b, 0) as u32,
            TimeDateStamp: le_u32(b, 4) as u32,
            MajorVersion: le_u16(b, 8) as u16,
            MinorVersion: le_u16(b, 10) as u16,
            NumberOfNamedEntries: le_u16(b, 12) as u16,
            NumberOfIdEntries: le_u16(b, 14) as u16,
        })
    }

    fn from_bytes(slice: &[u8], offset: usize) -> (r: Result<Self, PeError>) {
        let w = match window(slice, offset, 16) {
            Some(w) => w,
            None => return Err(PeError::OutOfBounds),
        };
        Ok(IMAGE_RESOURCE_DIRECTORY {
            Characteristics: read_u32(w, 0),
            TimeDateStamp: read_u32(w, 4),
            MajorVersion: read_u16(w, 8),
            MinorVersion: read_u16(w, 10),
            NumberOfNamedEntries: read_u16(w, 12),
            NumberOfIdEntries: read_u16(w, 14),
        })
    }
}

/// One entry of a resource directory.
#[derive(Clone, Copy, Debug)]
pub struct IMAGE_RESOURCE_DIRECTORY_ENTRY {
    /// Top bit set: offset of a name; clear: the low 16 bits are an id.
    pub Name: u32,
    /// Top bit set: offset of a subdirectory; clear: offset of a data entry.
    pub OffsetToData: u32,
}

impl PackedSize for IMAGE_RESOURCE_DIRECTORY_ENTRY {
    open spec fn spec_packed_size() -> nat {
        8
    }

    fn packed_size() -> (r: usize) {
        8
    }
}

impl StructFromBytes for IMAGE_RESOURCE_DIRECTORY_ENTRY {
    open spec fn spec_from_bytes(b: Seq<u8>) -> Result<Self, PeError> {
        Ok(IMAGE_RESOURCE_DIRECTORY_ENTRY {
            Name: le_u32(b, 0) as u32,
            OffsetToData: le_u32(b, 4) as u32,
        })
    }

    fn from_bytes(slice: &[u8], offset: usize) -> (r: Result<Self, PeError>) {
        let w = match window(slice, offset, 8) {
            Some(w) => w,
            None => return Err(PeError::OutOfBounds),
        };
        Ok(IMAGE_RESOURCE_DIRECTORY_ENTRY {
            Name: read_u32(w, 0),
            OffsetToData: read_u32(w, 4),
        })
    }
}

/// Leaf of the resource tree.
#[derive(Clone, Copy, Debug)]
pub struct IMAGE_RESOURCE_DATA_ENTRY {
    /// RVA of the resource bytes.
    pub OffsetToData: u32,
    pub Size: u32,
    pub CodePage: u32,
    pub Reserved: u32,
}

impl PackedSize for IMAGE_RESOURCE_DATA_ENTRY {
    open spec fn spec_packed_size() -> nat {
        16
    }

    fn packed_size() -> (r: usize) {
        16
    }
}

impl StructFromBytes for IMAGE_RESOURCE_DATA_ENTRY {
    open spec fn spec_from_bytes(b: Seq<u8>) -> Result<Self, PeError> {
        Ok(IMAGE_RESOURCE_DATA_ENTRY {
            OffsetToData: le_u32(b, 0) as u32,
            Size: le_u32(b, 4) as u32,
            CodePage: le_u32(b, 8) as u32,
            Reserved: le_u32(b, 12) as u32,
        })
    }

    fn from_bytes(slice: &[u8], offset: usize) -> (r: Result<Self, PeError>) {
        let w = match window(slice, offset, 16) {
            Some(w) => w,
            None => return Err(PeError::OutOfBounds),
        };
        Ok(IMAGE_RESOURCE_DATA_ENTRY {
            OffsetToData: read_u32(w, 0),
            Size: read_u32(w, 4),
            CodePage: read_u32(w, 8),
            Reserved: read_u32(w, 12),
        })
    }
}

/// Header of one message-table string; the text follows it.
#[derive(Clone, Copy, Debug)]
pub struct MESSAGE_RESOURCE_ENTRY {
    /// Length of the entry, this header included.
    pub Length: u16,
    /// 0 for code page 1252 text, 1 for UTF-16LE text.
    pub Flags: u16,
}

impl PackedSize for MESSAGE_RESOURCE_ENTRY {
    open spec fn spec_packed_size() -> nat {
        4
    }

    fn packed_size() -> (r: usize) {
        4
    }
}

impl StructFromBytes for MESSAGE_RESOURCE_ENTRY {
    open spec fn spec_from_bytes(b: Seq<u8>) -> Result<Self, PeError> {
        Ok(MESSAGE_RESOURCE_ENTRY {
            Length: le_u16(b, 0) as u16,
            Flags: le_u16(b, 2) as u16,
        })
    }

    fn from_bytes(slice: &[u8], offset: usize) -> (r: Result<Self, PeError>) {
        let w = match window(slice, offset, 4) {
            Some(w) => w,
            None => return Err(PeError::OutOfBounds),
        };
        Ok(MESSAGE_RESOURCE_ENTRY {
            Length: read_u16(w, 0),
            Flags: read_u16(w, 2),
        })
    }
}

/// One block of consecutive message ids.
#[derive(Clone, Copy, Debug)]
pub struct MESSAGE_RESOURCE_BLOCK {
    pub LowId: u32,
    pub HighId: u32,
    /// Offset of the first entry, from the start of the message table.
    pub OffsetToEntries: u32,
}

impl PackedSize for MESSAGE_RESOURCE_BLOCK {
    open spec fn spec_packed_size() -> nat {
        12
    }

    fn packed_size() -> (r: usize) {
        12
    }
}

impl StructFromBytes for MESSAGE_RESOURCE_BLOCK {
    open spec fn spec_from_bytes(b: Seq<u8>) -> Result<Self, PeError> {
        Ok(MESSAGE_RESOURCE_BLOCK {
            LowId: le_u32(b, 0) as u32,
            HighId: le_u32(b, 4) as u32,
            OffsetToEntries: le_u32(b, 8) as u32,
        })
    }

    fn from_bytes(slice: &[u8], offset: usize) -> (r: Result<Self, PeError>) {
        let w = match window(slice, offset, 12) {
            Some(w) => w,
            None => return Err(PeError::OutOfBounds),
        };
        Ok(MESSAGE_RESOURCE_BLOCK {
            LowId: read_u32(w, 0),
            HighId: read_u32(w, 4),
            OffsetToEntries: read_u32(w, 8),
        })
    }
}

/// Header of a message-table resource; the blocks follow it.
#[derive(Clone, Copy, Debug)]
pub struct MESSAGE_RESOURCE_DATA {
    pub NumberOfBlocks: u32,
}

impl PackedSize for MESSAGE_RESOURCE_DATA {
    open spec fn spec_packed_size() -> nat {
        4
    }

    fn packed_size() -> (r: usize) {
        4
    }
}

impl StructFromBytes for MESSAGE_RESOURCE_DATA {
    open spec fn spec_from_bytes(b: Seq<u8>) -> Result<Self, PeError> {
        Ok(MESSAGE_RESOURCE_DATA {
            NumberOfBlocks: le_u32(b, 0) as u32,
        })
    }

    fn from_bytes(slice: &[u8], offset: usize) -> (r: Result<Self, PeError>) {
        let w = match window(slice, offset, 4) {
            Some(w) => w,
            None => return Err(PeError::OutOfBounds),
        };
        Ok(MESSAGE_RESOURCE_DATA {
            NumberOfBlocks: read_u32(w, 0),
        })
    }
}

/// Optional header, in the layout that its magic selects.
#[derive(Clone, Copy, Debug)]
pub enum IMAGE_OPTIONAL_HEADER {
    AMD64(IMAGE_OPTIONAL_HEADER64),
    x86(IMAGE_OPTIONAL_HEADER32),
}

impl IMAGE_OPTIONAL_HEADER {
    pub open spec fn spec_number_of_rva_and_sizes(self) -> u32 {
        match self {
            IMAGE_OPTIONAL_HEADER::AMD64(v) => v.NumberOfRvaAndSizes,
            IMAGE_OPTIONAL_HEADER::x86(v) => v.NumberOfRvaAndSizes,
        }
    }

    /// Number of data-directory entries that follow the header, in either layout.
    pub fn NumberOfRvaAndSizes(&self) -> (r: u32)
        ensures
            r == self.spec_number_of_rva_and_sizes(),
    {
        match self {
            IMAGE_OPTIONAL_HEADER::AMD64(v) => v.NumberOfRvaAndSizes,
            IMAGE_OPTIONAL_HEADER::x86(v) => v.NumberOfRvaAndSizes,
        }
    }
}

/// Ordinals of the data-directory table.
#[derive(Clone, Copy, Debug, PartialEq, Eq, Structural)]
pub enum IMAGE_DIRECTORY_ENTRY {
    IMAGE_DIRECTORY_ENTRY_EXPORT,
    IMAGE_DIRECTORY_ENTRY_IMPORT,
    IMAGE_DIRECTORY_ENTRY_RESOURCE,
    IMAGE_DIRECTORY_ENTRY_EXCEPTION,
    IMAGE_DIRECTORY_ENTRY_SECURITY,
    IMAGE_DIRECTORY_ENTRY_BASERELOC,
    IMAGE_DIRECTORY_ENTRY_DEBUG,
    IMAGE_DIRECTORY_ENTRY_ARCHITECTURE,
    IMAGE_DIRECTORY_ENTRY_GLOBALPTR,
    IMAGE_DIRECTORY_ENTRY_TLS,
    IMAGE_DIRECTORY_ENTRY_LOAD_CONFIG,
    IMAGE_DIRECTORY_ENTRY_BOUND_IMPORT,
    IMAGE_DIRECTORY_ENTRY_IAT,
    IMAGE_DIRECTORY_ENTRY_DELAY_IMPORT,
    IMAGE_DIRECTORY_ENTRY_COM_DESCRIPTOR,
}

impl IMAGE_DIRECTORY_ENTRY {
    pub open spec fn spec_ordinal(self) -> usize {
        match self {
            IMAGE_DIRECTORY_ENTRY::IMAGE_DIRECTORY_ENTRY_EXPORT => 0,
            IMAGE_DIRECTORY_ENTRY::IMAGE_DIRECTORY_ENTRY_IMPORT => 1,
            IMAGE_DIRECTORY_ENTRY::IMAGE_DIRECTORY_ENTRY_RESOURCE => 2,
            IMAGE_DIRECTORY_ENTRY::IMAGE_DIRECTORY_ENTRY_EXCEPTION => 3,
            IMAGE_DIRECTORY_ENTRY::IMAGE_DIRECTORY_ENTRY_SECURITY => 4,
            IMAGE_DIRECTORY_ENTRY::IMAGE_DIRECTORY_ENTRY_BASERELOC => 5,
            IMAGE_DIRECTORY_ENTRY::IMAGE_DIRECTORY_ENTRY_DEBUG => 6,
            IMAGE_DIRECTORY_ENTRY::IMAGE_DIRECTORY_ENTRY_ARCHITECTURE => 7,
            IMAGE_DIRECTORY_ENTRY::IMAGE_DIRECTORY_ENTRY_GLOBALPTR => 8,
            IMAGE_DIRECTORY_ENTRY::IMAGE_DIRECTORY_ENTRY_TLS => 9,
            IMAGE_DIRECTORY_ENTRY::IMAGE_DIRECTORY_ENTRY_LOAD_CONFIG => 10,
            IMAGE_DIRECTORY_ENTRY::IMAGE_DIRECTORY_ENTRY_BOUND_IMPORT => 11,
            IMAGE_DIRECTORY_ENTRY::IMAGE_DIRECTORY_ENTRY_IAT => 12,
            IMAGE_DIRECTORY_ENTRY::IMAGE_DIRECTORY_ENTRY_DELAY_IMPORT => 13,
            IMAGE_DIRECTORY_ENTRY::IMAGE_DIRECTORY_ENTRY_COM_DESCRIPTOR => 14,
        }
    }

    /// Position of this entry in the data-directory table.
    pub fn ordinal(&self) -> (r: usize)
        ensures
            r == self.spec_ordinal(),
    {
        match self {
            IMAGE_DIRECTORY_ENTRY::IMAGE_DIRECTORY_ENTRY_EXPORT => 0,
            IMAGE_DIRECTORY_ENTRY::IMAGE_DIRECTORY_ENTRY_IMPORT => 1,
            IMAGE_DIRECTORY_ENTRY::IMAGE_DIRECTORY_ENTRY_RESOURCE => 2,
            IMAGE_DIRECTORY_ENTRY::IMAGE_DIRECTORY_ENTRY_EXCEPTION => 3,
            IMAGE_DIRECTORY_ENTRY::IMAGE_DIRECTORY_ENTRY_SECURITY => 4,
            IMAGE_DIRECTORY_ENTRY::IMAGE_DIRECTORY_ENTRY_BASERELOC => 5,
            IMAGE_DIRECTORY_ENTRY::IMAGE_DIRECTORY_ENTRY_DEBUG => 6,
            IMAGE_DIRECTORY_ENTRY::IMAGE_DIRECTORY_ENTRY_ARCHITECTURE => 7,
            IMAGE_DIRECTORY_ENTRY::IMAGE_DIRECTORY_ENTRY_GLOBALPTR => 8,
            IMAGE_DIRECTORY_ENTRY::IMAGE_DIRECTORY_ENTRY_TLS => 9,
            IMAGE_DIRECTORY_ENTRY::IMAGE_DIRECTORY_ENTRY_LOAD_CONFIG => 10,
            IMAGE_DIRECTORY_ENTRY::IMAGE_DIRECTORY_ENTRY_BOUND_IMPORT => 11,
            IMAGE_DIRECTORY_ENTRY::IMAGE_DIRECTORY_ENTRY_IAT => 12,
            IMAGE_DIRECTORY_ENTRY::IMAGE_DIRECTORY_ENTRY_DELAY_IMPORT => 13,
            IMAGE_DIRECTORY_ENTRY::IMAGE_DIRECTORY_ENTRY_COM_DESCRIPTOR => 14,
        }
    }
}

} // verus!
