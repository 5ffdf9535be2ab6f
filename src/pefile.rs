use vstd::prelude::*;

use crate::bytes::{le_u16, read_u16, window};
use crate::error::{FormatIssue, PeError};
use crate::from_bytes::{decode_at, decode_seq, PackedSize, StructFromBytes};
use crate::winnt::{
    IMAGE_DATA_DIRECTORY, IMAGE_DIRECTORY_ENTRY, IMAGE_DOS_HEADER, IMAGE_FILE_HEADER,
    IMAGE_OPTIONAL_HEADER, IMAGE_OPTIONAL_HEADER32, IMAGE_OPTIONAL_HEADER64,
    IMAGE_SECTION_HEADER,
};

verus! {

/// Headers and tables of an image, as read from its bytes.
pub struct ImageLayout {
    pub dos_header: IMAGE_DOS_HEADER,
    pub file_header: IMAGE_FILE_HEADER,
    pub optional_header: Option<IMAGE_OPTIONAL_HEADER>,
    /// One slot per data-directory entry; `None` where its address is 0.
    pub directories: Seq<Option<IMAGE_DATA_DIRECTORY>>,
    pub sections: Seq<IMAGE_SECTION_HEADER>,
}

/// `MZ`, read little-endian.
pub const DOS_MAGIC: u16 = 0x5a4d;

/// Ordinal of the resource table in the data directory.
pub const RESOURCE_DIRECTORY_ORDINAL: usize = 2;

/// Whether `rva` lies in the half-open range `[VirtualAddress, VirtualAddress + Misc)`.
pub open spec fn in_section(s: IMAGE_SECTION_HEADER, rva: int) -> bool {
    s.VirtualAddress <= rva < s.VirtualAddress + s.Misc
}

/// File offset of `rva` through the first section of `secs` that holds it.
pub open spec fn spec_resolve(secs: Seq<IMAGE_SECTION_HEADER>, rva: int) -> Option<int>
    decreases secs.len(),
{
    if secs.len() == 0 {
        None
    } else if in_section(secs[0], rva) {
        Some(rva - secs[0].VirtualAddress + secs[0].PointerToRawData)
    } else {
        spec_resolve(secs.drop_first(), rva)
    }
}

/// No two sections share an address.
pub open spec fn sections_disjoint(secs: Seq<IMAGE_SECTION_HEADER>) -> bool {
    forall|i: int, j: int, rva: int|
        0 <= i < secs.len() && 0 <= j < secs.len() && in_section(secs[i], rva) && in_section(
            secs[j],
            rva,
        ) ==> i == j
}

/// In an image whose sections do not overlap, an RVA resolves exactly when one
/// section holds it, and then through that section.
pub proof fn lemma_resolve_iff_in_one_section(secs: Seq<IMAGE_SECTION_HEADER>, rva: int)
    requires
        sections_disjoint(secs),
    ensures
        spec_resolve(secs, rva) is Some <==> exists|i: int|
            0 <= i < secs.len() && in_section(#[trigger] secs[i], rva),
        forall|i: int|
            0 <= i < secs.len() && in_section(#[trigger] secs[i], rva) ==> spec_resolve(secs, rva)
                == Some(rva - secs[i].VirtualAddress + secs[i].PointerToRawData),
    decreases secs.len(),
{
    if secs.len() > 0 {
        let rest = secs.drop_first();
        assert(sections_disjoint(rest)) by {
            assert forall|i: int, j: int, a: int|
                0 <= i < rest.len() && 0 <= j < rest.len() && in_section(rest[i], a) && in_section(
                    rest[j],
                    a,
                ) implies i == j by {
                assert(rest[i] == secs[i + 1]);
                assert(rest[j] == secs[j + 1]);
            }
        }
        lemma_resolve_iff_in_one_section(rest, rva);
        if !in_section(secs[0], rva) {
            assert forall|i: int|
                0 <= i < secs.len() && in_section(#[trigger] secs[i], rva) implies 0 <= i - 1
                < rest.len() && in_section(rest[i - 1], rva) by {
                assert(rest[i - 1] == secs[i]);
            }
            if spec_resolve(secs, rva) is Some {
                let k = choose|k: int| 0 <= k < rest.len() && in_section(#[trigger] rest[k], rva);
                assert(secs[k + 1] == rest[k]);
            }
        }
    }
}

/// The four bytes of the NT signature, `PE\0\0`.
pub open spec fn nt_signature() -> Seq<u8> {
    seq![0x50u8, 0x45u8, 0u8, 0u8]
}

/// The optional header at `off`, if `size` says there is one, and the offset just past it.
#[verifier::opaque]
pub open spec fn spec_optional_header(img: Seq<u8>, off: int, size: u16) -> Result<
    (Option<IMAGE_OPTIONAL_HEADER>, int),
    PeError,
> {
    if size == 0 {
        Ok((None, off))
    } else if off + 2 > img.len() {
        Err(PeError::OutOfBounds)
    } else if le_u16(img, off) == 0x10b {
        match decode_at::<IMAGE_OPTIONAL_HEADER32>(img, off) {
            Ok(h) => Ok((Some(IMAGE_OPTIONAL_HEADER::x86(h)), off + 96)),
            Err(e) => Err(e),
        }
    } else if le_u16(img, off) == 0x20b {
        match decode_at::<IMAGE_OPTIONAL_HEADER64>(img, off) {
            Ok(h) => Ok((Some(IMAGE_OPTIONAL_HEADER::AMD64(h)), off + 112)),
            Err(e) => Err(e),
        }
    } else {
        Err(PeError::InvalidFormat(FormatIssue::OptionalHeaderMagic))
    }
}

/// A data-directory entry with address 0 is absent.
pub open spec fn directory_slot(d: IMAGE_DATA_DIRECTORY) -> Option<IMAGE_DATA_DIRECTORY> {
    if d.VirtualAddress == 0 {
        None
    } else {
        Some(d)
    }
}

pub open spec fn spec_directory_count(oh: Option<IMAGE_OPTIONAL_HEADER>) -> nat {
    match oh {
        None => 0,
        Some(h) => h.spec_number_of_rva_and_sizes() as nat,
    }
}

/// The tables that follow the optional header: the data directory, then the sections.
pub open spec fn spec_tables(
    img: Seq<u8>,
    dos: IMAGE_DOS_HEADER,
    fh: IMAGE_FILE_HEADER,
    oh: Option<IMAGE_OPTIONAL_HEADER>,
    off: int,
) -> Result<ImageLayout, PeError> {
    let n = spec_directory_count(oh);
    match decode_seq::<IMAGE_DATA_DIRECTORY>(img, off, n) {
        Err(e) => Err(e),
        Ok(dirs) => match decode_seq::<IMAGE_SECTION_HEADER>(
            img,
            off + 8 * n,
            fh.NumberOfSections as nat,
        ) {
            Err(e) => Err(e),
            Ok(secs) => Ok(
                ImageLayout {
                    dos_header: dos,
                    file_header: fh,
                    optional_header: oh,
                    directories: dirs.map_values(|d: IMAGE_DATA_DIRECTORY| directory_slot(d)),
                    sections: secs,
                },
            ),
        },
    }
}

/// The DOS header, checked for `MZ`, then the NT signature `PE\0\0` at
/// `e_lfanew`, then the file header after it; or the first failure met.
/// Hidden by default, as its decodings are large; `reveal(spec_headers)`
/// exposes it.
#[verifier::opaque]
pub open spec fn spec_headers(img: Seq<u8>) -> Result<(IMAGE_DOS_HEADER, IMAGE_FILE_HEADER), PeError> {
    match decode_at::<IMAGE_DOS_HEADER>(img, 0) {
        Err(e) => Err(e),
        Ok(dos) => {
            let nt = dos.e_lfanew as int;
            if dos.e_magic != DOS_MAGIC {
                Err(PeError::InvalidFormat(FormatIssue::DosMagic))
            } else if nt + 4 > img.len() {
                Err(PeError::OutOfBounds)
            } else if img.subrange(nt, nt + 4) != nt_signature() {
                Err(PeError::InvalidFormat(FormatIssue::NtMagic))
            } else {
                match decode_at::<IMAGE_FILE_HEADER>(img, nt + 4) {
                    Err(e) => Err(e),
                    Ok(fh) => Ok((dos, fh)),
                }
            }
        },
    }
}

/// The layout that the bytes of an image describe, or the first failure met reading it:
/// DOS header, NT signature, file header, optional header, data directory, sections.
pub open spec fn spec_load(img: Seq<u8>) -> Result<ImageLayout, PeError> {
    match spec_headers(img) {
        Err(e) => Err(e),
        Ok((dos, fh)) => match spec_optional_header(
            img,
            dos.e_lfanew + 24,
            fh.SizeOfOptionalHeader,
        ) {
            Err(e) => Err(e),
            Ok((oh, off)) => spec_tables(img, dos, fh, oh, off),
        },
    }
}

/// Once `n` records starting at `off` fail to decode, so do more of them, with the same error.
pub proof fn lemma_decode_seq_err<T: StructFromBytes>(b: Seq<u8>, off: int, k: nat, n: nat)
    requires
        k <= n,
        decode_seq::<T>(b, off, k) is Err,
    ensures
        decode_seq::<T>(b, off, n) == decode_seq::<T>(b, off, k),
    decreases n - k,
{
    if k < n {
        lemma_decode_seq_err::<T>(b, off, k, (n - 1) as nat);
    }
}

/// Reads and checks the DOS header, the NT signature and the file header.
fn read_headers(img: &[u8]) -> (r: Result<(IMAGE_DOS_HEADER, IMAGE_FILE_HEADER), PeError>)
    ensures
        r == spec_headers(img@),
        r matches Ok((dos, _)) ==> dos.e_lfanew + 24 <= img@.len(),
{
    reveal(spec_headers);
    let _len: usize = img.len();
    let image_dos_header = IMAGE_DOS_HEADER::from_bytes(img, 0)?;
    if image_dos_header.e_magic != DOS_MAGIC {
        return Err(PeError::InvalidFormat(FormatIssue::DosMagic));
    }
    let nt_magic_offset = image_dos_header.e_lfanew as usize;
    let nt_magic = match window(img, nt_magic_offset, 4) {
        Some(w) => w,
        None => return Err(PeError::OutOfBounds),
    };
    if !(nt_magic[0] == 0x50 && nt_magic[1] == 0x45 && nt_magic[2] == 0 && nt_magic[3] == 0) {
        assert(nt_magic@ != nt_signature()) by {
            if nt_magic@ == nt_signature() {
                assert(nt_magic@[0] == nt_signature()[0]);
                assert(nt_magic@[1] == nt_signature()[1]);
                assert(nt_magic@[2] == nt_signature()[2]);
                assert(nt_magic@[3] == nt_signature()[3]);
            }
        }
        return Err(PeError::InvalidFormat(FormatIssue::NtMagic));
    }
    assert(nt_magic@ =~= nt_signature());
    let image_file_header = IMAGE_FILE_HEADER::from_bytes(img, nt_magic_offset + 4)?;
    Ok((image_dos_header, image_file_header))
}

/// Reads the optional header at `offset`, if `size` says there is one; returns it
/// with the offset just past it.
fn read_optional_header(img: &[u8], offset: usize, size: u16) -> (r: Result<
    (Option<IMAGE_OPTIONAL_HEADER>, usize),
    PeError,
>)
    requires
        offset <= img@.len(),
    ensures
        match r {
            Ok((oh, off)) => spec_optional_header(img@, offset as int, size) == Ok::<
                (Option<IMAGE_OPTIONAL_HEADER>, int),
                PeError,
            >((oh, off as int)) && off <= img@.len(),
            Err(e) => spec_optional_header(img@, offset as int, size) == Err::<
                (Option<IMAGE_OPTIONAL_HEADER>, int),
                PeError,
            >(e),
        },
{
    reveal(spec_optional_header);
    if size == 0 {
        return Ok((None, offset));
    }
    let len = img.len();
    if len - offset < 2 {
        return Err(PeError::OutOfBounds);
    }
    let magic = read_u16(img, offset);
    if magic == 0x10b {
        let header = IMAGE_OPTIONAL_HEADER32::from_bytes(img, offset)?;
        Ok((Some(IMAGE_OPTIONAL_HEADER::x86(header)), offset + IMAGE_OPTIONAL_HEADER32::packed_size()))
    } else if magic == 0x20b {
        let header = IMAGE_OPTIONAL_HEADER64::from_bytes(img, offset)?;
        Ok((Some(IMAGE_OPTIONAL_HEADER::AMD64(header)), offset + IMAGE_OPTIONAL_HEADER64::packed_size()))
    } else {
        Err(PeError::InvalidFormat(FormatIssue::OptionalHeaderMagic))
    }
}

/// Reads the data directory: `n` entries from `off` on, absent where the address is 0.
fn read_directories(img: &[u8], off: usize, n: usize) -> (r: Result<
    Vec<Option<IMAGE_DATA_DIRECTORY>>,
    PeError,
>)
    requires
        off <= img@.len(),
    ensures
        match r {
            Ok(v) => decode_seq::<IMAGE_DATA_DIRECTORY>(img@, off as int, n as nat) is Ok && v@
                == decode_seq::<IMAGE_DATA_DIRECTORY>(img@, off as int, n as nat)->Ok_0.map_values(
                |d: IMAGE_DATA_DIRECTORY| directory_slot(d),
            ) && off + 8 * n <= img@.len(),
            Err(e) => decode_seq::<IMAGE_DATA_DIRECTORY>(img@, off as int, n as nat) == Err::<
                Seq<IMAGE_DATA_DIRECTORY>,
                PeError,
            >(e),
        },
{
    let raw_directories = read_table::<IMAGE_DATA_DIRECTORY>(img, off, n)?;
    let mut directories: Vec<Option<IMAGE_DATA_DIRECTORY>> = Vec::new();
    let mut idx: usize = 0;
    while idx < raw_directories.len()
        invariant
            idx <= raw_directories@.len(),
            directories@ =~= raw_directories@.take(idx as int).map_values(
                |d: IMAGE_DATA_DIRECTORY| directory_slot(d),
            ),
        decreases raw_directories@.len() - idx,
    {
        let entry = raw_directories[idx];
        if entry.VirtualAddress != 0 {
            directories.push(Some(entry));
        } else {
            directories.push(None);
        }
        idx = idx + 1;
        assert(raw_directories@.take(idx as int) =~= raw_directories@.take((idx - 1) as int).push(
            entry,
        ));
    }
    assert(raw_directories@.take(idx as int) =~= raw_directories@);
    proof {
        lemma_decode_seq_in_bounds::<IMAGE_DATA_DIRECTORY>(img@, off as int, n as nat);
    }
    Ok(directories)
}

/// Decodes `n` consecutive records from `off` on.
fn read_table<T: StructFromBytes>(img: &[u8], off: usize, n: usize) -> (r: Result<Vec<T>, PeError>)
    requires
        off <= img@.len(),
    ensures
        match r {
            Ok(v) => decode_seq::<T>(img@, off as int, n as nat) == Ok::<Seq<T>, PeError>(v@),
            Err(e) => decode_seq::<T>(img@, off as int, n as nat) == Err::<Seq<T>, PeError>(e),
        },
{
    let size = T::packed_size();
    let len = img.len();
    let mut v: Vec<T> = Vec::new();
    let mut pos: usize = off;
    let mut i: usize = 0;
    while i < n
        invariant
            i <= n,
            size as nat == T::spec_packed_size(),
            pos == off + i * size,
            pos <= img@.len(),
            len == img@.len(),
            decode_seq::<T>(img@, off as int, i as nat) == Ok::<Seq<T>, PeError>(v@),
        decreases n - i,
    {
        let item = T::from_bytes(img, pos);
        match item {
            Ok(x) => {
                v.push(x);
                assert(decode_seq::<T>(img@, off as int, (i + 1) as nat) == Ok::<Seq<T>, PeError>(
                    v@,
                ));
            },
            Err(e) => {
                proof {
                    lemma_decode_seq_err::<T>(img@, off as int, (i + 1) as nat, n as nat);
                }
                return Err(e);
            },
        }
        proof {
            assert((i + 1) * size == i * size + size) by (nonlinear_arith);
        }
        pos = pos + size;
        i = i + 1;
    }
    Ok(v)
}

/// A Portable Executable image held in memory, with its headers and tables.
pub struct PEFile {
    image: Vec<u8>,
    image_dos_header: IMAGE_DOS_HEADER,
    image_file_header: IMAGE_FILE_HEADER,
    image_optional_header: Option<IMAGE_OPTIONAL_HEADER>,
    directories: Vec<Option<IMAGE_DATA_DIRECTORY>>,
    sections: Vec<IMAGE_SECTION_HEADER>,
}

impl PEFile {
    /// The bytes of the whole image.
    pub closed spec fn spec_image(&self) -> Seq<u8> {
        self.image@
    }

    /// The headers and tables read from the image.
    pub closed spec fn spec_layout(&self) -> ImageLayout {
        ImageLayout {
            dos_header: self.image_dos_header,
            file_header: self.image_file_header,
            optional_header: self.image_optional_header,
            directories: self.directories@,
            sections: self.sections@,
        }
    }

    /// Every `PEFile` holds the layout that its bytes describe.
    pub closed spec fn wf(&self) -> bool {
        spec_load(self.image@) == Ok::<ImageLayout, PeError>(self.spec_layout())
    }

    /// Parses the headers and tables of an image.
    #[verifier::rlimit(100)]
    pub fn new(image: Vec<u8>) -> (r: Result<PEFile, PeError>)
        ensures
            match r {
                Ok(p) => p.wf() && p.spec_image() == image@ && spec_load(image@) == Ok::<
                    ImageLayout,
                    PeError,
                >(p.spec_layout()),
                Err(e) => spec_load(image@) == Err::<ImageLayout, PeError>(e),
            },
    {
        let img = image.as_slice();
        let _len: usize = img.len();
        let (image_dos_header, image_file_header) = read_headers(img)?;
        let offset = image_dos_header.e_lfanew as usize + 24;
        let (image_optional_header, after) = read_optional_header(
            img,
            offset,
            image_file_header.SizeOfOptionalHeader,
        )?;
        let mut offset = after;

        // data directory
        let entry_count: usize = match &image_optional_header {
            None => 0,
            Some(oh) => oh.NumberOfRvaAndSizes() as usize,
        };
        let directories = read_directories(img, offset, entry_count)?;
        offset = offset + 8 * entry_count;

        // section table
        let sections = read_table::<IMAGE_SECTION_HEADER>(
            img,
            offset,
            image_file_header.NumberOfSections as usize,
        )?;

        Ok(
            PEFile {
                image,
                image_dos_header,
                image_file_header,
                image_optional_header,
                directories,
                sections,
            },
        )
    }
}

impl PEFile {
    /// File offset of `rva`, where it lies in a section and the offset fits in `usize`.
    pub open spec fn spec_raw_address(&self, rva: int) -> Option<usize> {
        match spec_resolve(self.spec_layout().sections, rva) {
            Some(a) => if a <= usize::MAX {
                Some(a as usize)
            } else {
                None
            },
            None => None,
        }
    }

    /// Translates an RVA to a file offset through the first section that holds it.
    pub fn get_raw_address(&self, rva: usize) -> (r: Option<usize>)
        ensures
            r == self.spec_raw_address(rva as int),
    {
        let mut i: usize = 0;
        assert(self.sections@.subrange(0, self.sections@.len() as int) =~= self.sections@);
        while i < self.sections.len()
            invariant
                i <= self.sections@.len(),
                spec_resolve(self.sections@, rva as int) == spec_resolve(
                    self.sections@.subrange(i as int, self.sections@.len() as int),
                    rva as int,
                ),
            decreases self.sections@.len() - i,
        {
            let sect = &self.sections[i];
            let va = sect.VirtualAddress as usize;
            let ghost rest = self.sections@.subrange(i as int, self.sections@.len() as int);
            assert(rest[0] == self.sections@[i as int]);
            if va <= rva && rva - va < sect.Misc as usize {
                let raw = (rva - va).checked_add(sect.PointerToRawData as usize);
                return raw;
            }
            assert(rest.drop_first() =~= self.sections@.subrange(
                i + 1,
                self.sections@.len() as int,
            ));
            i = i + 1;
        }
        None
    }

    /// Offset and size, within the image, of the resource section: `None` where
    /// the image has no resource directory entry or its address lies in no section.
    pub open spec fn spec_resource_region(&self) -> Option<(int, int)> {
        let dirs = self.spec_layout().directories;
        if dirs.len() <= RESOURCE_DIRECTORY_ORDINAL {
            None
        } else {
            match dirs[RESOURCE_DIRECTORY_ORDINAL as int] {
                None => None,
                Some(d) => match self.spec_raw_address(d.VirtualAddress as int) {
                    None => None,
                    Some(o) => Some((o as int, d.Size as int)),
                },
            }
        }
    }

    /// Whether the resource section lies wholly within the image.
    pub open spec fn spec_resource_in_bounds(&self) -> bool {
        match self.spec_resource_region() {
            None => true,
            Some((o, n)) => o + n <= self.spec_image().len(),
        }
    }

    /// The resource section: `Ok(None)` where there is none, `OutOfBounds` where
    /// it reaches past the image.
    pub(crate) fn resources_region(&self) -> (r: Result<Option<&[u8]>, PeError>)
        ensures
            match self.spec_resource_region() {
                None => r == Ok::<Option<&[u8]>, PeError>(None),
                Some((o, n)) => if o + n <= self.spec_image().len() {
                    r matches Ok(Some(s)) && s@ == self.spec_image().subrange(o, o + n)
                } else {
                    r == Err::<Option<&[u8]>, PeError>(PeError::OutOfBounds)
                },
            },
    {
        let idx_resources = IMAGE_DIRECTORY_ENTRY::IMAGE_DIRECTORY_ENTRY_RESOURCE.ordinal();
        if self.directories.len() <= idx_resources {
            return Ok(None);
        }
        match &self.directories[idx_resources] {
            None => Ok(None),
            Some(entry) => match self.get_raw_address(entry.VirtualAddress as usize) {
                None => Ok(None),
                Some(offset) => match window(self.image.as_slice(), offset, entry.Size as usize) {
                    None => Err(PeError::OutOfBounds),
                    Some(w) => Ok(Some(w)),
                },
            },
        }
    }

    /// The bytes of the resource section, where the image has one within its bounds.
    pub fn get_resources_section(&self) -> (r: Option<&[u8]>)
        ensures
            match self.spec_resource_region() {
                None => r is None,
                Some((o, n)) => if o + n <= self.spec_image().len() {
                    r matches Some(s) && s@ == self.spec_image().subrange(o, o + n)
                } else {
                    r is None
                },
            },
    {
        match self.resources_region() {
            Ok(r) => r,
            Err(_) => None,
        }
    }

    /// The bytes of the resource section, which the image must have.
    pub fn resources(&self) -> (r: &[u8])
        requires
            self.spec_resource_region() matches Some((o, n)) && o + n <= self.spec_image().len(),
        ensures
            self.spec_resource_region() matches Some((o, n)) && r@ == self.spec_image().subrange(
                o,
                o + n,
            ),
    {
        match self.get_resources_section() {
            Some(s) => s,
            None => {
                assert(false);
                &[]
            },
        }
    }

    pub fn dos_header(&self) -> (r: IMAGE_DOS_HEADER)
        ensures
            r == self.spec_layout().dos_header,
    {
        self.image_dos_header
    }

    pub fn file_header(&self) -> (r: IMAGE_FILE_HEADER)
        ensures
            r == self.spec_layout().file_header,
    {
        self.image_file_header
    }

    /// The optional header, `None` where the file header declares none.
    pub fn optional_header(&self) -> (r: Option<IMAGE_OPTIONAL_HEADER>)
        ensures
            r == self.spec_layout().optional_header,
    {
        self.image_optional_header
    }

    /// The data directory, one slot per entry, `None` where an entry is absent.
    pub fn directories(&self) -> (r: &[Option<IMAGE_DATA_DIRECTORY>])
        ensures
            r@ == self.spec_layout().directories,
    {
        self.directories.as_slice()
    }

    /// The section table.
    pub fn sections(&self) -> (r: &[IMAGE_SECTION_HEADER])
        ensures
            r@ == self.spec_layout().sections,
    {
        self.sections.as_slice()
    }

    /// The bytes of the whole image.
    pub fn full_image(&self) -> (r: &[u8])
        ensures
            r@ == self.spec_image(),
    {
        self.image.as_slice()
    }

    /// The bytes of the resource section, where it lies within the image.
    pub open spec fn spec_resource_bytes(&self) -> Seq<u8> {
        match self.spec_resource_region() {
            Some((o, n)) => self.spec_image().subrange(o, o + n),
            None => Seq::empty(),
        }
    }
}

/// In an image whose sections do not overlap, and whose sections' file ranges
/// can be addressed (`PointerToRawData + Misc` fits in `usize`, which always
/// holds where `usize` has 64 bits), `get_raw_address(rva)` finds an offset
/// exactly when one section holds `rva`, and then through that section.
pub proof fn lemma_raw_address_iff_in_one_section(p: &PEFile, rva: int)
    requires
        sections_disjoint(p.spec_layout().sections),
        forall|i: int|
            0 <= i < p.spec_layout().sections.len() ==> (#[trigger] p.spec_layout().sections[i]).PointerToRawData
                + p.spec_layout().sections[i].Misc <= usize::MAX,
    ensures
        p.spec_raw_address(rva) is Some <==> exists|i: int|
            0 <= i < p.spec_layout().sections.len() && in_section(
                #[trigger] p.spec_layout().sections[i],
                rva,
            ),
        forall|i: int|
            0 <= i < p.spec_layout().sections.len() && in_section(
                #[trigger] p.spec_layout().sections[i],
                rva,
            ) ==> p.spec_raw_address(rva) == Some(
                (rva - p.spec_layout().sections[i].VirtualAddress
                    + p.spec_layout().sections[i].PointerToRawData) as usize,
            ),
{
    let secs = p.spec_layout().sections;
    lemma_resolve_iff_in_one_section(secs, rva);
    if exists|i: int| 0 <= i < secs.len() && in_section(#[trigger] secs[i], rva) {
        let i = choose|i: int| 0 <= i < secs.len() && in_section(#[trigger] secs[i], rva);
        assert(secs[i].PointerToRawData + secs[i].Misc <= usize::MAX);
    }
}

/// Parsing depends on nothing but the bytes: two images read from equal bytes
/// hold the same headers and tables.
pub proof fn lemma_load_deterministic(a: &PEFile, b: &PEFile)
    requires
        a.wf(),
        b.wf(),
        a.spec_image() == b.spec_image(),
    ensures
        a.spec_layout() == b.spec_layout(),
        forall|rva: int| a.spec_raw_address(rva) == b.spec_raw_address(rva),
        a.spec_resource_region() == b.spec_resource_region(),
{
    reveal(PEFile::wf);
}

/// An image whose file header declares no optional header has no optional
/// header, no data directory, and so no resource section.
pub proof fn lemma_no_optional_header(p: &PEFile)
    requires
        p.wf(),
        p.spec_layout().file_header.SizeOfOptionalHeader == 0,
    ensures
        p.spec_layout().optional_header is None,
        p.spec_layout().directories.len() == 0,
        p.spec_resource_region() is None,
{
    reveal(spec_headers);
    reveal(spec_optional_header);
    let img = p.spec_image();
    let dos = decode_at::<IMAGE_DOS_HEADER>(img, 0)->Ok_0;
    let fh = decode_at::<IMAGE_FILE_HEADER>(img, dos.e_lfanew + 4)->Ok_0;
    assert(fh == p.spec_layout().file_header);
    assert(decode_seq::<IMAGE_DATA_DIRECTORY>(img, dos.e_lfanew + 24, 0) == Ok::<
        Seq<IMAGE_DATA_DIRECTORY>,
        PeError,
    >(Seq::empty()));
}

/// Where `n` records decode, they all lie within the bytes.
pub proof fn lemma_decode_seq_in_bounds<T: StructFromBytes>(b: Seq<u8>, off: int, n: nat)
    requires
        0 <= off <= b.len(),
        decode_seq::<T>(b, off, n) is Ok,
    ensures
        off + n * T::spec_packed_size() <= b.len(),
        decode_seq::<T>(b, off, n)->Ok_0.len() == n,
    decreases n,
{
    if n > 0 {
        let m = (n - 1) as nat;
        let sz = T::spec_packed_size();
        lemma_decode_seq_in_bounds::<T>(b, off, m);
        assert(decode_at::<T>(b, off + m * sz) is Ok);
        assert(off + m * sz + sz <= b.len());
        assert(n * sz == m * sz + sz) by (nonlinear_arith)
            requires
                n == m + 1,
        ;
    } else {
        assert(n * T::spec_packed_size() == 0) by (nonlinear_arith)
            requires
                n == 0,
        ;
    }
}

} // verus!
