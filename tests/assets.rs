use cedar::archive::{NxFile, HEADER_LEN, MAGIC};
use cedar::assets::{
    swap_red_blue, AssetManager, ButtonState, Colour, CursorState, FontDescriptor, FrameLimiter,
    Texture, NANOS_PER_SEC,
};

/// An archive whose root has the child "Back", whose child "sign" is a 2x1
/// bitmap with children "origin" (vector (3, -4)) and "z" (integer 5).
fn archive_bytes() -> Vec<u8> {
    let pixels = vec![1u8, 2, 3, 4, 5, 6, 7, 8];
    let packed = lz4_flex::compress(&pixels);
    let strings = ["", "Back", "sign", "origin", "z"];
    let bmp = 0u64 | 2u64 << 32 | 1u64 << 48;
    let origin = 3u64 | ((-4i32) as u32 as u64) << 32;
    // Nodes: root, Back, sign, origin, z.
    let nodes: [(u32, u32, u16, u16, u64); 5] = [
        (0, 1, 1, 0, 0),
        (1, 2, 1, 0, 0),
        (2, 3, 2, 5, bmp),
        (3, 0, 0, 4, origin),
        (4, 0, 0, 1, 5),
    ];
    let node_offset = HEADER_LEN;
    let string_offset = node_offset + 20 * nodes.len() as u64;
    let bitmap_offset = string_offset + 8 * strings.len() as u64;
    let mut at = bitmap_offset + 8;
    let mut out = Vec::new();
    out.extend_from_slice(&MAGIC.to_le_bytes());
    out.extend_from_slice(&(nodes.len() as u32).to_le_bytes());
    out.extend_from_slice(&node_offset.to_le_bytes());
    out.extend_from_slice(&(strings.len() as u32).to_le_bytes());
    out.extend_from_slice(&string_offset.to_le_bytes());
    out.extend_from_slice(&1u32.to_le_bytes());
    out.extend_from_slice(&bitmap_offset.to_le_bytes());
    out.extend_from_slice(&0u32.to_le_bytes());
    out.extend_from_slice(&0u64.to_le_bytes());
    for (name, children, count, tag, data) in nodes {
        out.extend_from_slice(&name.to_le_bytes());
        out.extend_from_slice(&children.to_le_bytes());
        out.extend_from_slice(&count.to_le_bytes());
        out.extend_from_slice(&tag.to_le_bytes());
        out.extend_from_slice(&data.to_le_bytes());
    }
    let mut tail = Vec::new();
    for s in strings {
        out.extend_from_slice(&at.to_le_bytes());
        tail.extend_from_slice(&(s.len() as u16).to_le_bytes());
        tail.extend_from_slice(s.as_bytes());
        at += 2 + s.len() as u64;
    }
    out.extend_from_slice(&at.to_le_bytes());
    tail.extend_from_slice(&(packed.len() as u32).to_le_bytes());
    tail.extend_from_slice(&packed);
    out.extend_from_slice(&tail);
    out
}

fn manager() -> AssetManager {
    let mut m = AssetManager::new();
    let file = NxFile::from_bytes(archive_bytes()).unwrap();
    m.files.push(("UI.nx".to_string(), file));
    m
}

#[test]
fn texture_load_reads_children_and_bitmap() {
    let file = NxFile::from_bytes(archive_bytes()).unwrap();
    let sign = file.root().get_path(&file, "Back/sign").unwrap().unwrap();
    let t = Texture::load(&sign, &file).unwrap().unwrap();
    assert_eq!((t.width, t.height), (2, 1));
    assert_eq!(t.data, vec![1, 2, 3, 4, 5, 6, 7, 8]);
    assert_eq!(t.origin, Some((3, -4)));
    assert_eq!(t.layer, Some(5));
    let back = file.root().get(&file, "Back").unwrap().unwrap();
    assert!(Texture::load(&back, &file).unwrap().is_none());
}

#[test]
fn get_texture_by_path() {
    let m = manager();
    let t = m.get_texture("UI.nx/Back/sign").unwrap();
    assert_eq!(t.data, vec![1, 2, 3, 4, 5, 6, 7, 8]);
    assert!(m.get_texture("UI.nx/Back/none").is_none());
    assert!(m.get_texture("Map.nx/Back/sign").is_none());
    assert!(m.get_texture("UI.nx").is_none());
    assert!(m.get_texture("UI.nx/Back").is_none());
}

#[test]
fn get_texture_rgba_swaps_channels() {
    let m = manager();
    let t = m.get_texture_rgba("UI.nx/Back/sign").unwrap();
    assert_eq!(t.data, vec![3, 2, 1, 4, 7, 6, 5, 8]);
    assert_eq!(t.origin, Some((3, -4)));
}

#[test]
fn swap_keeps_partial_pixel() {
    let mut d = vec![1u8, 2, 3, 4, 5, 6];
    swap_red_blue(&mut d);
    assert_eq!(d, vec![3, 2, 1, 4, 5, 6]);
    let mut empty: Vec<u8> = vec![];
    swap_red_blue(&mut empty);
    assert!(empty.is_empty());
}

#[test]
fn colours() {
    let c = Colour::rgb(1, 2, 3);
    assert_eq!((c.red, c.green, c.blue, c.alpha), (1, 2, 3, 255));
    let w = Colour::white();
    assert_eq!((w.red, w.green, w.blue, w.alpha), (255, 255, 255, 255));
}

#[test]
fn font_descriptors() {
    let d = FontDescriptor::new("Arial", 13, Colour::rgb(255, 255, 255));
    assert_eq!(d, FontDescriptor::default());
    assert_eq!(d.name, "Arial");
    let e = FontDescriptor::new("Dotum", 12, Colour::white());
    assert_ne!(d, e);
}

#[test]
fn frame_limiter_periods() {
    let f = FrameLimiter::new(60, 1_000);
    assert_eq!(f.tick_duration, NANOS_PER_SEC / 120);
    assert_eq!(f.target_frame_duration, 16_666_666);
    assert!(!f.ready_for_frame(1_000 + 16_666_666));
    assert!(f.ready_for_frame(1_000 + 16_666_667));
    assert!(!f.ready_for_update(500));
    assert!(f.ready_for_update(1_000 + 20_000_000));
}

#[test]
fn state_enums() {
    assert_ne!(ButtonState::Default, ButtonState::Pressed);
    assert_eq!(CursorState::Idle, CursorState::Idle);
    assert_ne!(CursorState::Idle, CursorState::Hidden);
}
