use libpefile::{EntryIdentifier, PEFile, PeError, TreeEvent, TreeRecorder};

fn label(id: &EntryIdentifier) -> String {
    match id {
        EntryIdentifier::Name(s) => s.clone(),
        EntryIdentifier::Id(i) => format!("#{}", i),
        EntryIdentifier::NoIdentifier => String::from("/"),
    }
}

/// Replays the recorded calls: counts enters and leaves, checks that each leave
/// closes the innermost open directory, and lists the leaves by path.
fn replay(events: &[TreeEvent]) -> (usize, usize, usize, Vec<String>, Vec<String>) {
    let (mut enters, mut leaves, mut max_depth) = (0, 0, 0);
    let mut path: Vec<String> = Vec::new();
    let mut leaves_seen = Vec::new();
    for e in events {
        match e {
            TreeEvent::Enter(_, id) => {
                enters += 1;
                path.push(label(id));
                max_depth = max_depth.max(path.len());
            }
            TreeEvent::Leave(_, id) => {
                leaves += 1;
                assert_eq!(path.pop(), Some(label(id)));
            }
            TreeEvent::Leaf(_, id) => leaves_seen.push(format!("{}/{}", path.join("/"), label(id))),
        }
    }
    (enters, leaves, max_depth, path, leaves_seen)
}

fn put16(b: &mut [u8], off: usize, v: u16) {
    b[off..off + 2].copy_from_slice(&v.to_le_bytes());
}

fn put32(b: &mut [u8], off: usize, v: u32) {
    b[off..off + 4].copy_from_slice(&v.to_le_bytes());
}

/// An image whose resource section is `res`, at RVA 0x1000 and file offset 0x200.
fn image(res: &[u8]) -> Vec<u8> {
    let mut img = vec![0u8; 0x200];
    img[0] = b'M';
    img[1] = b'Z';
    put32(&mut img, 0x3c, 0x40);
    img[0x40..0x44].copy_from_slice(b"PE\0\0");
    put16(&mut img, 0x44, 0x8664);
    put16(&mut img, 0x46, 1);
    put16(&mut img, 0x44 + 16, 96 + 3 * 8);
    put16(&mut img, 0x58, 0x10b);
    put32(&mut img, 0x58 + 92, 3);
    put32(&mut img, 0xb8 + 16, 0x1000);
    put32(&mut img, 0xb8 + 20, res.len() as u32);
    let s = 0xb8 + 24;
    put32(&mut img, s + 8, res.len() as u32);
    put32(&mut img, s + 12, 0x1000);
    put32(&mut img, s + 16, res.len() as u32);
    put32(&mut img, s + 20, 0x200);
    img.extend_from_slice(res);
    img
}

/// Root with a named entry "IC" and an ordinal 3, each a directory with one leaf.
fn tree() -> Vec<u8> {
    let mut res = vec![0u8; 0x80];
    put16(&mut res, 12, 1);
    put16(&mut res, 14, 1);
    put32(&mut res, 16, 0x8000_0070);
    put32(&mut res, 20, 0x8000_0020);
    put32(&mut res, 24, 3);
    put32(&mut res, 28, 0x8000_0040);
    for dir in [0x20usize, 0x40] {
        put16(&mut res, dir + 14, 1);
        put32(&mut res, dir + 16, 0x409);
        put32(&mut res, dir + 20, 0x60);
    }
    put16(&mut res, 0x70, 2);
    res[0x72..0x76].copy_from_slice(&[b'I', 0, b'C', 0]);
    res
}

#[test]
fn enter_and_leave_are_balanced() {
    let pe = PEFile::new(image(&tree())).unwrap();
    let mut v = TreeRecorder::new();
    pe.visit_resource_tree(&mut v).unwrap();
    let (enters, leaves, max_depth, path, leaves_seen) = replay(v.events());
    assert_eq!(enters, 3);
    assert_eq!(leaves, 3);
    assert!(path.is_empty());
    assert_eq!(max_depth, 2);
    assert_eq!(leaves_seen, vec!["//IC/#1033", "//#3/#1033"]);
}

#[test]
fn leave_follows_enter_when_a_child_fails() {
    let mut res = tree();
    // the ordinal directory's leaf points past the end of the section
    put32(&mut res, 0x40 + 20, 0x7c);
    let pe = PEFile::new(image(&res)).unwrap();
    let mut v = TreeRecorder::new();
    assert_eq!(pe.visit_resource_tree(&mut v), Err(PeError::OutOfBounds));
    let (enters, leaves, _, path, _) = replay(v.events());
    assert_eq!(enters, 3);
    assert_eq!(enters, leaves);
    assert!(path.is_empty());
}

#[test]
fn image_without_resources_is_walked_with_no_visits() {
    let mut img = image(&tree());
    put32(&mut img, 0xb8 + 16, 0);
    let pe = PEFile::new(img).unwrap();
    let mut v = TreeRecorder::new();
    assert_eq!(pe.visit_resource_tree(&mut v), Ok(()));
    assert!(v.events().is_empty());
}
