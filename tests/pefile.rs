use libpefile::{
    utf16_from_slice, DirectoryEntryType, EntryIdentifier, FormatIssue, ImageResourceDirectory,
    Message, MessagesIterator, PEFile, PackedSize, PeError, StructFromBytes, IMAGE_DOS_HEADER,
    IMAGE_FILE_HEADER, IMAGE_OPTIONAL_HEADER, IMAGE_OPTIONAL_HEADER32, IMAGE_OPTIONAL_HEADER64,
    IMAGE_RESOURCE_DATA_ENTRY, IMAGE_RESOURCE_DIRECTORY, IMAGE_RESOURCE_DIRECTORY_ENTRY,
    IMAGE_SECTION_HEADER, MESSAGE_RESOURCE_BLOCK, MESSAGE_RESOURCE_ENTRY,
};

const RSRC_FILE: usize = 0x200;
const RSRC_RVA: u32 = 0x1000;
const LAST_TEXT: &str = "Highest System-Defined Audit Message Value.\r\n\u{0}";

fn put16(b: &mut [u8], off: usize, v: u16) {
    b[off..off + 2].copy_from_slice(&v.to_le_bytes());
}

fn put32(b: &mut [u8], off: usize, v: u32) {
    b[off..off + 4].copy_from_slice(&v.to_le_bytes());
}

fn utf16(s: &str) -> Vec<u8> {
    s.encode_utf16().flat_map(|u| u.to_le_bytes()).collect()
}

/// A resource section: root -> type 11 -> one directory per table (its id) ->
/// language 0x409 -> data entry -> message table with one block of ids 1..=n.
fn resources(tables: &[(u16, Vec<(u16, Vec<u8>)>)]) -> Vec<u8> {
    let n = tables.len();
    let lang_dirs = 40 + 8 * n;
    let data_entries = lang_dirs + 24 * n;
    let mut res = vec![0u8; data_entries + 16 * n];
    put16(&mut res, 14, 1);
    put32(&mut res, 16, 11);
    put32(&mut res, 20, 0x8000_0000 | 24);
    put16(&mut res, 24 + 14, n as u16);
    for (i, (id, entries)) in tables.iter().enumerate() {
        let l = lang_dirs + 24 * i;
        let d = data_entries + 16 * i;
        put32(&mut res, 40 + 8 * i, *id as u32);
        put32(&mut res, 40 + 8 * i + 4, 0x8000_0000 | l as u32);
        put16(&mut res, l + 14, 1);
        put32(&mut res, l + 16, 0x409);
        put32(&mut res, l + 20, d as u32);
        let table = res.len();
        let mut t = vec![0u8; 16];
        put32(&mut t, 0, 1);
        put32(&mut t, 4, 1);
        put32(&mut t, 8, entries.len() as u32);
        put32(&mut t, 12, 16);
        for (flags, text) in entries {
            let mut e = vec![0u8; 4];
            put16(&mut e, 0, (4 + text.len()) as u16);
            put16(&mut e, 2, *flags);
            e.extend_from_slice(text);
            t.extend_from_slice(&e);
        }
        put32(&mut res, d, RSRC_RVA + table as u32);
        put32(&mut res, d + 4, t.len() as u32);
        res.extend_from_slice(&t);
    }
    res
}

/// An image with one section that holds `res` at RVA 0x1000, file offset 0x200.
/// `magic` 0 leaves the optional header out.
fn image_with(magic: u16, res: &[u8]) -> Vec<u8> {
    let mut img = vec![0u8; RSRC_FILE];
    img[0] = b'M';
    img[1] = b'Z';
    put32(&mut img, 0x3c, 0x40);
    img[0x40..0x44].copy_from_slice(b"PE\0\0");
    put16(&mut img, 0x44, 0x14c);
    put16(&mut img, 0x46, 1);
    let mut sections = 0x58;
    if magic != 0 {
        let header = if magic == 0x20b { 112 } else { 96 };
        put16(&mut img, 0x44 + 16, (header + 16 * 8) as u16);
        put16(&mut img, 0x58, magic);
        put32(&mut img, 0x58 + header - 4, 16);
        let dirs = 0x58 + header;
        put32(&mut img, dirs + 16, RSRC_RVA);
        put32(&mut img, dirs + 20, res.len() as u32);
        sections = dirs + 16 * 8;
    }
    img[sections..sections + 5].copy_from_slice(b".rsrc");
    put32(&mut img, sections + 8, res.len() as u32);
    put32(&mut img, sections + 12, RSRC_RVA);
    put32(&mut img, sections + 16, res.len() as u32);
    put32(&mut img, sections + 20, RSRC_FILE as u32);
    img.extend_from_slice(res);
    img
}

fn sample_tables() -> Vec<(u16, Vec<(u16, Vec<u8>)>)> {
    vec![(1, vec![(0, b"Audit\r\n\0".to_vec()), (1, utf16(LAST_TEXT))])]
}

fn sample_image() -> Vec<u8> {
    image_with(0x10b, &resources(&sample_tables()))
}

fn all_messages(pe: &PEFile) -> (Vec<Message>, Vec<PeError>) {
    let mut ms = pe.messages_iter().unwrap();
    let mut out = Vec::new();
    while let Some(m) = ms.next() {
        out.push(m);
    }
    (out, ms.errors().to_vec())
}

#[test]
fn last_last() {
    let pe = PEFile::new(sample_image()).unwrap();
    let (msgs, errors) = all_messages(&pe);
    let msg = msgs.last().unwrap();
    assert_eq!("Highest System-Defined Audit Message Value.\r\n\u{0}", msg.text);
    assert!(errors.is_empty());
}

#[test]
fn messages_in_order_with_ids_and_language() {
    let pe = PEFile::new(sample_image()).unwrap();
    let (msgs, _) = all_messages(&pe);
    assert_eq!(msgs.len(), 2);
    assert_eq!(msgs[0].msg_id, 1);
    assert_eq!(msgs[0].lang_id, 1);
    assert_eq!(msgs[0].text, "Audit\r\n\u{0}");
    assert_eq!(msgs[1].msg_id, 2);
    assert_eq!(msgs[1].text, LAST_TEXT);
}

#[test]
fn code_page_1252_text_is_decoded() {
    let tables = vec![(1, vec![(0, vec![0x80, b'x'])])];
    let pe = PEFile::new(image_with(0x10b, &resources(&tables))).unwrap();
    let (msgs, _) = all_messages(&pe);
    assert_eq!(msgs[0].text, "\u{20ac}x");
}

#[test]
fn dos_magic_rejected() {
    let mut img = sample_image();
    img[1] = b'X';
    assert_eq!(PEFile::new(img).err(), Some(PeError::InvalidFormat(FormatIssue::DosMagic)));
}

#[test]
fn nt_magic_rejected() {
    let mut img = sample_image();
    img[0x42] = b'X';
    assert_eq!(PEFile::new(img).err(), Some(PeError::InvalidFormat(FormatIssue::NtMagic)));
}

#[test]
fn nt_signature_past_end_is_out_of_bounds() {
    let mut img = sample_image();
    put32(&mut img, 0x3c, 0xffff_0000);
    assert_eq!(PEFile::new(img).err(), Some(PeError::OutOfBounds));
}

#[test]
fn optional_header_magic_rejected() {
    let img = image_with(0x107, &resources(&sample_tables()));
    assert_eq!(
        PEFile::new(img).err(),
        Some(PeError::InvalidFormat(FormatIssue::OptionalHeaderMagic))
    );
}

#[test]
fn unknown_machine_rejected() {
    let mut img = sample_image();
    put16(&mut img, 0x44, 0x1234);
    assert_eq!(PEFile::new(img).err(), Some(PeError::InvalidFormat(FormatIssue::Machine)));
}

#[test]
fn truncated_image_is_out_of_bounds() {
    let img = sample_image()[..0x30].to_vec();
    assert_eq!(PEFile::new(img).err(), Some(PeError::OutOfBounds));
    let img = sample_image()[..0x150].to_vec();
    assert_eq!(PEFile::new(img).err(), Some(PeError::OutOfBounds));
}

#[test]
fn no_optional_header_means_no_resources() {
    let pe = PEFile::new(image_with(0, &resources(&sample_tables()))).unwrap();
    assert!(pe.optional_header().is_none());
    assert_eq!(pe.directories().len(), 0);
    assert!(pe.get_resources_section().is_none());
    assert_eq!(pe.sections().len(), 1);
    let (msgs, errors) = all_messages(&pe);
    assert!(msgs.is_empty());
    assert!(errors.is_empty());
}

#[test]
fn headers_32_and_64_bit() {
    let pe = PEFile::new(sample_image()).unwrap();
    match pe.optional_header() {
        Some(IMAGE_OPTIONAL_HEADER::x86(h)) => assert_eq!(h.NumberOfRvaAndSizes, 16),
        _ => panic!("expected a 32-bit optional header"),
    }
    assert_eq!(pe.optional_header().unwrap().NumberOfRvaAndSizes(), 16);
    assert_eq!(pe.dos_header().e_lfanew, 0x40);
    assert_eq!(pe.file_header().NumberOfSections, 1);
    assert_eq!(&pe.sections()[0].Name[..5], b".rsrc");
    let pe = PEFile::new(image_with(0x20b, &resources(&sample_tables()))).unwrap();
    match pe.optional_header() {
        Some(IMAGE_OPTIONAL_HEADER::AMD64(h)) => assert_eq!(h.NumberOfRvaAndSizes, 16),
        _ => panic!("expected a 64-bit optional header"),
    }
    let (msgs, _) = all_messages(&pe);
    assert_eq!(msgs.len(), 2);
}

#[test]
fn empty_directory_slots_are_absent() {
    let pe = PEFile::new(sample_image()).unwrap();
    let dirs = pe.directories();
    assert_eq!(dirs.len(), 16);
    assert!(dirs[0].is_none());
    assert_eq!(dirs[2].unwrap().VirtualAddress, RSRC_RVA);
}

#[test]
fn resolve_rva_within_and_outside_sections() {
    let res = resources(&sample_tables());
    let pe = PEFile::new(image_with(0x10b, &res)).unwrap();
    assert_eq!(pe.get_raw_address(0x1000), Some(0x200));
    assert_eq!(pe.get_raw_address(0x1010), Some(0x210));
    assert_eq!(pe.get_raw_address(0x1000 + res.len() - 1), Some(0x200 + res.len() - 1));
    assert_eq!(pe.get_raw_address(0x1000 + res.len()), None);
    assert_eq!(pe.get_raw_address(0xfff), None);
}

#[test]
fn resource_section_is_exactly_the_directory_range() {
    let res = resources(&sample_tables());
    let pe = PEFile::new(image_with(0x10b, &res)).unwrap();
    assert_eq!(pe.get_resources_section().unwrap(), &res[..]);
    assert_eq!(pe.resources(), &res[..]);
    assert_eq!(pe.full_image().len(), RSRC_FILE + res.len());
}

#[test]
fn resource_section_past_end_of_image() {
    let res = resources(&sample_tables());
    let mut img = image_with(0x10b, &res);
    put32(&mut img, 0x58 + 96 + 20, res.len() as u32 + 1);
    let pe = PEFile::new(img).unwrap();
    assert!(pe.get_resources_section().is_none());
    assert_eq!(pe.messages_iter().err(), Some(PeError::OutOfBounds));
}

#[test]
fn bad_encoding_flags_end_only_that_language() {
    let tables = vec![
        (1, vec![(2, b"bad".to_vec()), (0, b"never".to_vec())]),
        (2, vec![(0, b"good".to_vec())]),
    ];
    let pe = PEFile::new(image_with(0x10b, &resources(&tables))).unwrap();
    let (msgs, errors) = all_messages(&pe);
    assert_eq!(msgs.len(), 1);
    assert_eq!(msgs[0].lang_id, 2);
    assert_eq!(msgs[0].text, "good");
    assert_eq!(errors, vec![PeError::InvalidFormat(FormatIssue::EncodingFlags)]);
}

#[test]
fn short_entry_length_is_refused() {
    let res = resources(&sample_tables());
    let mut img = image_with(0x10b, &res);
    // first entry of the only table: 16 bytes after the table start
    let table = RSRC_FILE + 40 + 8 + 24 + 16;
    put16(&mut img, table + 16, 2);
    let pe = PEFile::new(img).unwrap();
    let (msgs, errors) = all_messages(&pe);
    assert!(msgs.is_empty());
    assert_eq!(errors, vec![PeError::InvalidFormat(FormatIssue::EntryLength)]);
}

#[test]
fn unmapped_message_table_address() {
    let res = resources(&sample_tables());
    let mut img = image_with(0x10b, &res);
    let data_entry = RSRC_FILE + 40 + 8 + 24;
    put32(&mut img, data_entry, 0x9000);
    let pe = PEFile::new(img).unwrap();
    assert_eq!(pe.messages_iter().err(), Some(PeError::UnmappedAddress));
}

#[test]
fn message_table_leaf_at_wrong_depth() {
    let res = resources(&sample_tables());
    let mut img = image_with(0x10b, &res);
    // the type directory's entry points straight at the data entry
    put32(&mut img, RSRC_FILE + 40 + 4, (40 + 8 + 24) as u32);
    let pe = PEFile::new(img).unwrap();
    assert_eq!(
        pe.messages_iter().err(),
        Some(PeError::InvalidFormat(FormatIssue::ResourceLayout))
    );
}

#[test]
fn cyclic_tree_is_cut_off() {
    let res = resources(&sample_tables());
    let mut img = image_with(0x10b, &res);
    // the type directory's entry points back at the type directory
    put32(&mut img, RSRC_FILE + 40 + 4, 0x8000_0000 | 24);
    let pe = PEFile::new(img).unwrap();
    assert_eq!(
        pe.messages_iter().err(),
        Some(PeError::InvalidFormat(FormatIssue::ResourceDepth))
    );
    let res = pe.resources();
    assert_eq!(
        ImageResourceDirectory::from_bytes(res, 0).err(),
        Some(PeError::InvalidFormat(FormatIssue::ResourceDepth))
    );
}

#[test]
fn named_entry_among_ordinals_is_refused() {
    let res = resources(&sample_tables());
    let mut img = image_with(0x10b, &res);
    // the root says one named entry, but its only entry is an ordinal
    put16(&mut img, RSRC_FILE + 12, 1);
    put16(&mut img, RSRC_FILE + 14, 0);
    let pe = PEFile::new(img).unwrap();
    assert_eq!(
        pe.messages_iter().err(),
        Some(PeError::InvalidFormat(FormatIssue::EntryOrder))
    );
}

#[test]
fn entry_identifier_follows_position() {
    let mut res = vec![0u8; 16];
    put16(&mut res, 8, 2);
    res[10..14].copy_from_slice(&utf16("AB"));
    let named = IMAGE_RESOURCE_DIRECTORY_ENTRY { Name: 0x8000_0008, OffsetToData: 0 };
    let ordinal = IMAGE_RESOURCE_DIRECTORY_ENTRY { Name: 0x0001_0005, OffsetToData: 0 };
    match named.identifier_at(&res, 0, 1) {
        Ok(EntryIdentifier::Name(s)) => assert_eq!(s, "AB"),
        other => panic!("unexpected {:?}", other),
    }
    match ordinal.identifier_at(&res, 1, 1) {
        Ok(EntryIdentifier::Id(id)) => assert_eq!(id, 5),
        other => panic!("unexpected {:?}", other),
    }
    assert_eq!(
        named.identifier_at(&res, 1, 1).err(),
        Some(PeError::InvalidFormat(FormatIssue::EntryOrder))
    );
    assert_eq!(
        ordinal.identifier_at(&res, 0, 1).err(),
        Some(PeError::InvalidFormat(FormatIssue::EntryOrder))
    );
    let far = IMAGE_RESOURCE_DIRECTORY_ENTRY { Name: 0x8000_000f, OffsetToData: 0 };
    assert_eq!(far.parse_identifier(&res).err(), Some(PeError::OutOfBounds));
    assert!(named.is_named_entry());
    assert!(!ordinal.is_named_entry());
}

#[test]
fn utf16_from_slice_decodes_units() {
    let bytes = [0x00, 0x41, 0x00, 0x42, 0x00, 0x00, 0xd8];
    assert_eq!(utf16_from_slice(&bytes, 1, 2), "AB");
    assert_eq!(utf16_from_slice(&bytes, 5, 1), "\u{fffd}");
    assert_eq!(utf16_from_slice(&bytes, 0, 0), "");
}

#[test]
fn block_ids_are_consecutive_and_entries_contiguous() {
    let tables = vec![(1, vec![(0, b"a".to_vec()), (0, b"bcd".to_vec()), (1, utf16("ef"))])];
    let pe = PEFile::new(image_with(0x10b, &resources(&tables))).unwrap();
    let data = IMAGE_RESOURCE_DATA_ENTRY {
        OffsetToData: RSRC_RVA + (40 + 8 + 24 + 16) as u32,
        Size: 0,
        CodePage: 0,
        Reserved: 0,
    };
    let mut it = MessagesIterator::new(&pe, 7, &data).unwrap();
    let table = RSRC_FILE + 40 + 8 + 24 + 16;
    let mut ids = Vec::new();
    while let Some(m) = it.do_next().unwrap() {
        assert_eq!(m.lang_id, 7);
        ids.push(m.msg_id);
    }
    assert_eq!(ids, vec![1, 2, 3]);
    let c = it.cursor();
    assert_eq!((c.low_id, c.high_id, c.current_id), (1, 3, 3));
    assert_eq!(c.entry_offset, table + 16 + (4 + 1) + (4 + 3) + (4 + 4));
    assert_eq!(it.next().map(|m| m.msg_id), None);
    assert_eq!(it.error(), None);
    assert_eq!(it.lang_id(), 7);
}

#[test]
fn reopening_gives_identical_messages() {
    let img = sample_image();
    let first = all_messages(&PEFile::new(img.clone()).unwrap()).0;
    let second = all_messages(&PEFile::new(img).unwrap()).0;
    let view = |ms: &Vec<Message>| ms.iter().map(|m| (m.msg_id, m.lang_id, m.text.clone())).collect::<Vec<_>>();
    assert_eq!(view(&first), view(&second));
}

#[test]
fn resource_tree_is_read_whole() {
    let res = resources(&sample_tables());
    let root = ImageResourceDirectory::from_bytes(&res, 0).unwrap();
    assert_eq!(root.raw_directory.NumberOfIdEntries, 1);
    assert_eq!(root.children.len(), 1);
    let types = match &root.children[0] {
        DirectoryEntryType::Directory(d) => d,
        DirectoryEntryType::Data(_) => panic!("expected a directory"),
    };
    let langs = match &types.children[0] {
        DirectoryEntryType::Directory(d) => d,
        DirectoryEntryType::Data(_) => panic!("expected a directory"),
    };
    match &langs.children[0] {
        DirectoryEntryType::Data(d) => {
            assert_eq!(d.raw_entry.OffsetToData, RSRC_RVA + (40 + 8 + 24 + 16) as u32)
        }
        DirectoryEntryType::Directory(_) => panic!("expected a leaf"),
    }
}

#[test]
fn packed_sizes_match_the_format() {
    assert_eq!(IMAGE_DOS_HEADER::packed_size(), 64);
    assert_eq!(IMAGE_FILE_HEADER::packed_size(), 20);
    assert_eq!(IMAGE_OPTIONAL_HEADER32::packed_size(), 96);
    assert_eq!(IMAGE_OPTIONAL_HEADER64::packed_size(), 112);
    assert_eq!(IMAGE_SECTION_HEADER::packed_size(), 40);
    assert_eq!(IMAGE_RESOURCE_DIRECTORY::packed_size(), 16);
    assert_eq!(IMAGE_RESOURCE_DATA_ENTRY::packed_size(), 16);
    assert_eq!(MESSAGE_RESOURCE_BLOCK::packed_size(), 12);
    assert_eq!(MESSAGE_RESOURCE_ENTRY::packed_size(), 4);
    assert_eq!(<u32 as PackedSize>::packed_size(), 4);
    assert_eq!(<[u16; 10] as PackedSize>::packed_size(), 20);
}

#[test]
fn from_bytes_reads_little_endian_and_checks_bounds() {
    let bytes = [0xff, 0x10, 0x00, 0x04, 0x00];
    let e = MESSAGE_RESOURCE_ENTRY::from_bytes(&bytes, 1).unwrap();
    assert_eq!(e.Length, 0x10);
    assert_eq!(e.Flags, 4);
    assert_eq!(MESSAGE_RESOURCE_ENTRY::from_bytes(&bytes, 2).err(), Some(PeError::OutOfBounds));
    assert_eq!(MESSAGE_RESOURCE_ENTRY::from_bytes(&bytes, 9).err(), Some(PeError::OutOfBounds));
}

#[test]
fn message_new_keeps_fields() {
    let m = Message::new(3, 1033, String::from("x"));
    assert_eq!((m.msg_id, m.lang_id, m.text.as_str()), (3, 1033, "x"));
}
