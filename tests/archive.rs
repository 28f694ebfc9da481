use cedar::archive::{NodeType, NxFile, NxHeader, NxNode, HEADER_LEN, MAGIC};
use cedar::bytes::{read_bytes, read_u16, read_u32, read_u64};
use cedar::error::NxError;
use cedar::order::compare_bytes;
use cedar::value::DecodedBitmap;

/// A node as stored: name index, first child, child count, type tag, payload.
type Rec = (u32, u32, u16, u16, u64);

/// Lays out an archive: header, node table, string table and strings, then
/// the bitmap and audio tables with their blobs.
fn build(nodes: &[Rec], strings: &[&str], bitmaps: &[Vec<u8>], audio: &[Vec<u8>]) -> Vec<u8> {
    let node_offset = HEADER_LEN;
    let string_offset = node_offset + 20 * nodes.len() as u64;
    let bitmap_offset = string_offset + 8 * strings.len() as u64;
    let audio_offset = bitmap_offset + 8 * bitmaps.len() as u64;
    let mut blobs_at = audio_offset + 8 * audio.len() as u64;

    let mut out = Vec::new();
    out.extend_from_slice(&MAGIC.to_le_bytes());
    out.extend_from_slice(&(nodes.len() as u32).to_le_bytes());
    out.extend_from_slice(&node_offset.to_le_bytes());
    out.extend_from_slice(&(strings.len() as u32).to_le_bytes());
    out.extend_from_slice(&string_offset.to_le_bytes());
    out.extend_from_slice(&(bitmaps.len() as u32).to_le_bytes());
    out.extend_from_slice(&bitmap_offset.to_le_bytes());
    out.extend_from_slice(&(audio.len() as u32).to_le_bytes());
    out.extend_from_slice(&audio_offset.to_le_bytes());
    assert_eq!(out.len() as u64, HEADER_LEN);

    for &(name, children, count, tag, data) in nodes {
        out.extend_from_slice(&name.to_le_bytes());
        out.extend_from_slice(&children.to_le_bytes());
        out.extend_from_slice(&count.to_le_bytes());
        out.extend_from_slice(&tag.to_le_bytes());
        out.extend_from_slice(&data.to_le_bytes());
    }

    let mut tail = Vec::new();
    for s in strings {
        out.extend_from_slice(&blobs_at.to_le_bytes());
        let mut entry = (s.len() as u16).to_le_bytes().to_vec();
        entry.extend_from_slice(s.as_bytes());
        blobs_at += entry.len() as u64;
        tail.push(entry);
    }
    for b in bitmaps.iter().chain(audio.iter()) {
        out.extend_from_slice(&blobs_at.to_le_bytes());
        let mut entry = (b.len() as u32).to_le_bytes().to_vec();
        entry.extend_from_slice(b);
        blobs_at += entry.len() as u64;
        tail.push(entry);
    }
    for t in tail {
        out.extend_from_slice(&t);
    }
    out
}

/// Root with children "Bar" (string "hi") and "Foo" (integer 42), sorted.
fn scenario() -> Vec<u8> {
    let nodes = [(0, 1, 2, 0, 0), (1, 0, 0, 3, 3), (2, 0, 0, 1, 42)];
    build(&nodes, &["", "Bar", "Foo", "hi"], &[], &[])
}

fn open(bytes: Vec<u8>) -> NxFile {
    NxFile::from_bytes(bytes).expect("archive should open")
}

#[test]
fn end_to_end_scenario() {
    let file = open(scenario());
    let root = file.root();
    let foo = root.get(&file, "Foo").unwrap().unwrap();
    assert_eq!(foo.as_integer(), Some(42));
    let bar = root.get(&file, "Bar").unwrap().unwrap();
    assert_eq!(bar.as_string(&file).unwrap(), Some("hi"));
    assert!(root.get(&file, "Baz").unwrap().is_none());
}

#[test]
fn found_child_carries_the_name() {
    let file = open(scenario());
    let foo = file.root().get(&file, "Foo").unwrap().unwrap();
    assert_eq!(file.get_str(foo.name).unwrap(), "Foo");
    assert_eq!(foo.index, 2);
    assert_eq!(foo.data_type, NodeType::Integer);
}

#[test]
fn wrong_type_gives_no_value() {
    let file = open(scenario());
    let foo = file.root().get(&file, "Foo").unwrap().unwrap();
    assert_eq!(foo.as_string(&file).unwrap(), None);
    assert_eq!(foo.as_vector(), None);
    assert_eq!(foo.as_float_bits(), None);
    assert!(foo.as_bitmap(&file).unwrap().is_none());
    assert!(foo.as_audio(&file).unwrap().is_none());
}

/// Root with `n` children named "k000", "k002", ... (even numbers), sorted.
fn wide(n: u16) -> (Vec<u8>, Vec<String>) {
    let names: Vec<String> = (0..n).map(|i| format!("k{:03}", 2 * i)).collect();
    let mut strings: Vec<&str> = vec![""];
    strings.extend(names.iter().map(|s| s.as_str()));
    let mut nodes: Vec<Rec> = vec![(0, 1, n, 0, 0)];
    for i in 0..n as u32 {
        nodes.push((i + 1, 0, 0, 1, i as u64));
    }
    (build(&nodes, &strings, &[], &[]), names)
}

#[test]
fn binary_search_finds_every_child() {
    for n in 0..40u16 {
        let (bytes, names) = wide(n);
        let file = open(bytes);
        let root = file.root();
        for (i, name) in names.iter().enumerate() {
            let child = root.get(&file, name).unwrap().expect("child should be found");
            assert_eq!(child.as_integer(), Some(i as i64));
        }
    }
}

#[test]
fn binary_search_misses_absent_names() {
    for n in 0..40u16 {
        let (bytes, _) = wide(n);
        let file = open(bytes);
        let root = file.root();
        for i in 0..n {
            let odd = format!("k{:03}", 2 * i + 1);
            assert!(root.get(&file, &odd).unwrap().is_none());
        }
        assert!(root.get(&file, "a").unwrap().is_none());
        assert!(root.get(&file, "z").unwrap().is_none());
        assert!(root.get(&file, "").unwrap().is_none());
        assert!(root.get(&file, "k0").unwrap().is_none());
    }
}

#[test]
fn corrupt_child_is_an_error_not_absence() {
    // The only child names string 9, outside the table of 2 strings.
    let bytes = build(&[(0, 1, 1, 0, 0), (9, 0, 0, 0, 0)], &["", "x"], &[], &[]);
    let file = open(bytes);
    assert_eq!(file.root().get(&file, "x"), Err(NxError::CorruptTable));
}

#[test]
fn child_range_beyond_node_count_is_corrupt() {
    let bytes = build(&[(0, 5, 1, 0, 0)], &[""], &[], &[]);
    let file = open(bytes);
    assert_eq!(file.root().get(&file, "x"), Err(NxError::CorruptTable));
}

#[test]
fn invalid_utf8_name_is_an_error() {
    let mut bytes = build(&[(0, 1, 1, 0, 0), (1, 0, 0, 0, 0)], &["", "ab"], &[], &[]);
    let n = bytes.len();
    bytes[n - 1] = 0xff;
    let file = open(bytes);
    assert_eq!(file.root().get(&file, "ab"), Err(NxError::InvalidString));
    assert_eq!(file.get_str(1), Err(NxError::InvalidString));
}

#[test]
fn path_navigation() {
    // root -> "a" -> "b" (integer 7)
    let nodes = [(0, 1, 1, 0, 0), (1, 2, 1, 0, 0), (2, 0, 0, 1, 7)];
    let file = open(build(&nodes, &["", "a", "b"], &[], &[]));
    let root = file.root();
    let b = root.get_path(&file, "a/b").unwrap().unwrap();
    assert_eq!(b.as_integer(), Some(7));
    assert_eq!(root.get_path(&file, "a").unwrap().unwrap().index, 1);
    assert!(root.get_path(&file, "a/c").unwrap().is_none());
    assert!(root.get_path(&file, "x/b").unwrap().is_none());
    assert!(root.get_path(&file, "a/b/c").unwrap().is_none());
}

#[test]
fn truncated_buffers_fail_with_out_of_bounds() {
    let full = scenario();
    for cut in 0..(HEADER_LEN as usize + 20) {
        let r = NxFile::from_bytes(full[..cut].to_vec());
        assert!(matches!(r, Err(NxError::OutOfBounds { .. })), "cut at {}", cut);
    }
}

#[test]
fn flipped_magic_byte_is_rejected() {
    let full = scenario();
    for i in 0..4 {
        for flip in [1u8, 0x80, 0xff] {
            let mut bytes = full.clone();
            bytes[i] ^= flip;
            assert!(matches!(NxFile::from_bytes(bytes), Err(NxError::InvalidMagicBytes)));
        }
    }
}

#[test]
fn header_fields_are_read_in_order() {
    let bytes = scenario();
    let h = NxHeader::new(&bytes).unwrap();
    assert_eq!(h.node_count, 3);
    assert_eq!(h.node_offset, 52);
    assert_eq!(h.string_count, 4);
    assert_eq!(h.string_offset, 52 + 60);
    assert_eq!(h.bitmap_count, 0);
    assert_eq!(h.audio_count, 0);
    assert_eq!(open(bytes).header(), h);
}

#[test]
fn header_shorter_than_its_fields() {
    let bytes = scenario();
    assert_eq!(
        NxHeader::new(&bytes[..20]),
        Err(NxError::OutOfBounds { offset: 4, len: 48 })
    );
    assert_eq!(NxHeader::new(&bytes[..3]), Err(NxError::OutOfBounds { offset: 0, len: 4 }));
}

#[test]
fn empty_node_table_is_corrupt() {
    let bytes = build(&[], &[], &[], &[]);
    assert!(matches!(NxFile::from_bytes(bytes), Err(NxError::CorruptTable)));
}

#[test]
fn node_index_past_table() {
    let file = open(scenario());
    assert_eq!(file.node(3), Err(NxError::CorruptTable));
    let n: NxNode = file.node(2).unwrap();
    assert_eq!(n.as_integer(), Some(42));
}

#[test]
fn string_round_trip() {
    let samples = ["", "a", "héllo wörld", "日本語", "emoji 🎮", "Login.img"];
    let mut strings: Vec<&str> = vec![""];
    strings.extend(samples.iter());
    let file = open(build(&[(0, 0, 0, 0, 0)], &strings, &[], &[]));
    for (i, s) in samples.iter().enumerate() {
        assert_eq!(file.get_str(i as u32 + 1).unwrap(), *s);
    }
    assert_eq!(file.get_str(99), Err(NxError::CorruptTable));
}

#[test]
fn string_offset_past_end() {
    let mut bytes = build(&[(0, 0, 0, 0, 0)], &["", "abc"], &[], &[]);
    let ptr = (52 + 20 + 8) as usize;
    bytes[ptr..ptr + 8].copy_from_slice(&1_000_000u64.to_le_bytes());
    let file = open(bytes);
    assert_eq!(file.get_str(1), Err(NxError::OutOfBounds { offset: 1_000_000, len: 2 }));
}

#[test]
fn integer_and_vector_payloads() {
    let neg = (-5i64) as u64;
    let vec_bits = ((-2i32) as u32 as u64) << 32 | 7u64;
    let nodes = [(0, 1, 2, 0, 0), (1, 0, 0, 1, neg), (2, 0, 0, 4, vec_bits)];
    let file = open(build(&nodes, &["", "i", "v"], &[], &[]));
    let root = file.root();
    assert_eq!(root.get(&file, "i").unwrap().unwrap().as_integer(), Some(-5));
    assert_eq!(root.get(&file, "v").unwrap().unwrap().as_vector(), Some((7, -2)));
}

#[test]
fn float_payload_bits() {
    let bits = 2.5f64.to_bits();
    let file = open(build(&[(0, 1, 1, 0, 0), (1, 0, 0, 2, bits)], &["", "f"], &[], &[]));
    let f = file.root().get(&file, "f").unwrap().unwrap();
    assert_eq!(f.as_float_bits().map(f64::from_bits), Some(2.5));
}

#[test]
fn unknown_tag_reads_as_empty() {
    assert_eq!(NodeType::from_tag(6), NodeType::Audio);
    assert_eq!(NodeType::from_tag(7), NodeType::Empty);
    assert_eq!(NodeType::from_tag(0), NodeType::Empty);
}

fn bitmap_payload(index: u32, width: u16, height: u16) -> u64 {
    index as u64 | (width as u64) << 32 | (height as u64) << 48
}

#[test]
fn bitmap_round_trip() {
    let (w, h) = (3u16, 2u16);
    let pixels: Vec<u8> = (0..(w as usize * h as usize)).flat_map(|i| [i as u8, 10, 20, 255]).collect();
    let packed = lz4_flex::compress(&pixels);
    let nodes = [(0, 1, 1, 0, 0), (1, 0, 0, 5, bitmap_payload(0, w, h))];
    let file = open(build(&nodes, &["", "bmp"], &[packed], &[]));
    let node = file.root().get(&file, "bmp").unwrap().unwrap();
    let bmp = node.as_bitmap(&file).unwrap().unwrap();
    assert_eq!((bmp.width, bmp.height), (w, h));
    assert_eq!(bmp.data.len(), w as usize * h as usize * 4);
    assert_eq!(bmp.data, pixels);
    assert_eq!(&bmp.data[0..4], &[0, 10, 20, 255]);
}

#[test]
fn bitmap_of_wrong_size_fails() {
    let packed = lz4_flex::compress(&[1u8, 2, 3, 4]);
    let nodes = [(0, 1, 1, 0, 0), (1, 0, 0, 5, bitmap_payload(0, 2, 2))];
    let file = open(build(&nodes, &["", "bmp"], &[packed], &[]));
    let node = file.root().get(&file, "bmp").unwrap().unwrap();
    assert!(matches!(node.as_bitmap(&file), Err(NxError::DecompressionFailed)));
}

#[test]
fn bitmap_with_bad_stream_fails() {
    let nodes = [(0, 1, 1, 0, 0), (1, 0, 0, 5, bitmap_payload(0, 1, 1))];
    let file = open(build(&nodes, &["", "bmp"], &[vec![0xf0]], &[]));
    let node = file.root().get(&file, "bmp").unwrap().unwrap();
    assert!(matches!(node.as_bitmap(&file), Err(NxError::DecompressionFailed)));
}

#[test]
fn bitmap_index_past_table() {
    let nodes = [(0, 1, 1, 0, 0), (1, 0, 0, 5, bitmap_payload(4, 1, 1))];
    let file = open(build(&nodes, &["", "bmp"], &[], &[]));
    let node = file.root().get(&file, "bmp").unwrap().unwrap();
    assert!(matches!(node.as_bitmap(&file), Err(NxError::CorruptTable)));
}

#[test]
fn decoded_bitmap_checks_size() {
    assert!(DecodedBitmap::from_decoded(1, 1, Some(vec![1, 2, 3, 4])).is_ok());
    assert!(matches!(
        DecodedBitmap::from_decoded(1, 1, Some(vec![1, 2, 3])),
        Err(NxError::DecompressionFailed)
    ));
    assert!(matches!(DecodedBitmap::from_decoded(1, 1, None), Err(NxError::DecompressionFailed)));
}

#[test]
fn audio_blob() {
    let sound = vec![9u8, 8, 7, 6, 5];
    let nodes = [(0, 1, 1, 0, 0), (1, 0, 0, 6, 0)];
    let file = open(build(&nodes, &["", "snd"], &[], &[sound.clone()]));
    let node = file.root().get(&file, "snd").unwrap().unwrap();
    assert_eq!(node.as_audio(&file).unwrap().unwrap().data, sound);
}

#[test]
fn byte_reads() {
    let d = [0x01u8, 0x02, 0x03, 0x04, 0x05, 0x06, 0x07, 0x08, 0x09];
    assert_eq!(read_u16(&d, 0), Ok(0x0201));
    assert_eq!(read_u32(&d, 1), Ok(0x05040302));
    assert_eq!(read_u64(&d, 1), Ok(0x0908070605040302));
    assert_eq!(read_u64(&d, 2), Err(NxError::OutOfBounds { offset: 2, len: 8 }));
    assert_eq!(read_u16(&d, u64::MAX), Err(NxError::OutOfBounds { offset: u64::MAX, len: 2 }));
    assert_eq!(read_bytes(&d, 7, 2), Ok(&d[7..9]));
    assert_eq!(read_bytes(&d, 8, 2), Err(NxError::OutOfBounds { offset: 8, len: 2 }));
}

#[test]
fn byte_order() {
    assert_eq!(compare_bytes(b"abc", b"abc"), 0);
    assert!(compare_bytes(b"ab", b"abc") < 0);
    assert!(compare_bytes(b"abd", b"abc") > 0);
    assert!(compare_bytes(b"", b"a") < 0);
    assert!(compare_bytes(b"B", b"a") < 0);
}
