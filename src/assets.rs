//! Textures and other assets read out of opened archives.
use vstd::prelude::*;
use vstd::string::StringSliceAdditionalSpecFns;
use vstd::utf8::encode_utf8;

use crate::archive::{first_slash, spec_child, spec_path, NxFile, NxHeader, NxNode};
use crate::error::NxError;
use crate::order::compare_bytes;
use crate::value::{spec_bitmap, spec_integer, spec_vector, DecodedBitmap};

verus! {

/// A colour with 8-bit channels.
#[derive(Clone, Copy, Debug, PartialEq, Eq, Hash, Structural)]
pub struct Colour {
    pub red: u8,
    pub blue: u8,
    pub green: u8,
    pub alpha: u8,
}

impl Colour {
    /// An opaque colour.
    pub fn rgb(red: u8, green: u8, blue: u8) -> (r: Colour)
        ensures
            r == (Colour { red, green, blue, alpha: 255 }),
    {
        Colour { red, green, blue, alpha: 255 }
    }

    /// Opaque white.
    pub fn white() -> (r: Colour)
        ensures
            r == (Colour { red: 255, green: 255, blue: 255, alpha: 255 }),
    {
        Colour { red: 255, green: 255, blue: 255, alpha: 255 }
    }
}

/// What picks out a font: its name, its pixel size and its colour.
#[derive(Clone, Debug, PartialEq, Eq, Hash)]
pub struct FontDescriptor {
    pub name: String,
    pub size: u8,
    pub colour: Colour,
}

impl FontDescriptor {
    pub fn new(name: &str, size: u8, colour: Colour) -> (r: FontDescriptor)
        ensures
            r.name@ == name@,
            r.size == size,
            r.colour == colour,
    {
        FontDescriptor { name: name.to_owned(), size, colour }
    }
}

impl Default for FontDescriptor {
    /// White Arial at 13 pixels.
    fn default() -> (r: FontDescriptor)
        ensures
            r.name@ == "Arial"@,
            r.size == 13,
            r.colour == (Colour { red: 255, green: 255, blue: 255, alpha: 255 }),
    {
        FontDescriptor { name: "Arial".to_owned(), size: 13, colour: Colour::white() }
    }
}

/// The look of a button.
#[derive(Clone, Copy, Debug, PartialEq, Eq, Structural)]
pub enum ButtonState {
    Default,
    Pressed,
    Hovered,
    Disabled,
}

/// Whether the cursor is drawn.
#[derive(Clone, Copy, Debug, PartialEq, Eq, Hash, Structural)]
pub enum CursorState {
    Idle,
    Hidden,
}

/// The archives that a client opens at start-up.
#[derive(Clone, Copy, Debug, PartialEq, Eq, Hash, Structural)]
pub enum NxFileType {
    Map001,
    Ui,
}

/// A bitmap with the values of its `origin` and `z` children, where present.
pub struct Texture {
    pub width: u32,
    pub height: u32,
    /// Four bytes a pixel.
    pub data: Vec<u8>,
    pub origin: Option<(i32, i32)>,
    pub layer: Option<i64>,
}

/// The name of the child that holds a texture's origin.
pub open spec fn origin_key() -> Seq<u8> {
    seq![0x6fu8, 0x72, 0x69, 0x67, 0x69, 0x6e]
}

/// The name of the child that holds a texture's layer.
pub open spec fn layer_key() -> Seq<u8> {
    seq![0x7au8]
}

/// The vector value of the child of `n` named `key`, if there is one.
pub open spec fn spec_child_vector(d: Seq<u8>, h: NxHeader, n: NxNode, key: Seq<u8>) -> Result<
    Option<(i32, i32)>,
    NxError,
> {
    match spec_child(d, h, n, key) {
        Err(e) => Err(e),
        Ok(None) => Ok(None),
        Ok(Some(c)) => Ok(spec_vector(c)),
    }
}

/// The integer value of the child of `n` named `key`, if there is one.
pub open spec fn spec_child_integer(d: Seq<u8>, h: NxHeader, n: NxNode, key: Seq<u8>) -> Result<
    Option<i64>,
    NxError,
> {
    match spec_child(d, h, n, key) {
        Err(e) => Err(e),
        Ok(None) => Ok(None),
        Ok(Some(c)) => Ok(spec_integer(c)),
    }
}

/// The texture of node `n`: origin, layer, width, height and pixels, or
/// `None` where `n` holds no bitmap. Children are read before the bitmap.
pub open spec fn spec_texture(d: Seq<u8>, h: NxHeader, n: NxNode) -> Result<
    Option<(Option<(i32, i32)>, Option<i64>, u16, u16, Seq<u8>)>,
    NxError,
> {
    match spec_child_vector(d, h, n, origin_key()) {
        Err(e) => Err(e),
        Ok(o) => match spec_child_integer(d, h, n, layer_key()) {
            Err(e) => Err(e),
            Ok(z) => match spec_bitmap(d, h, n) {
                Err(e) => Err(e),
                Ok(None) => Ok(None),
                Ok(Some((w, ht, px))) => Ok(Some((o, z, w, ht, px))),
            },
        },
    }
}

/// Whether `t` holds the texture value `v`.
pub open spec fn texture_is(
    t: Texture,
    v: (Option<(i32, i32)>, Option<i64>, u16, u16, Seq<u8>),
) -> bool {
    &&& t.origin == v.0
    &&& t.layer == v.1
    &&& t.width == v.2
    &&& t.height == v.3
    &&& t.data@ == v.4
}

impl Texture {
    /// Reads the texture held by `node`.
    pub fn load(node: &NxNode, file: &NxFile) -> (r: Result<Option<Texture>, NxError>)
        ensures
            match (r, spec_texture(file.bytes(), file.spec_header(), *node)) {
                (Ok(None), Ok(None)) => true,
                (Ok(Some(t)), Ok(Some(v))) => texture_is(t, v),
                (Err(e), Err(f)) => e == f,
                _ => false,
            },
    {
        let origin_name: Vec<u8> = vec![0x6fu8, 0x72, 0x69, 0x67, 0x69, 0x6e];
        let layer_name: Vec<u8> = vec![0x7au8];
        proof {
            assert(origin_name@ =~= origin_key());
            assert(layer_name@ =~= layer_key());
        }
        let origin = match file.find_child(node, origin_name.as_slice()) {
            Err(e) => return Err(e),
            Ok(None) => None,
            Ok(Some(c)) => c.as_vector(),
        };
        let layer = match file.find_child(node, layer_name.as_slice()) {
            Err(e) => return Err(e),
            Ok(None) => None,
            Ok(Some(c)) => c.as_integer(),
        };
        let bitmap: DecodedBitmap = match node.as_bitmap(file) {
            Err(e) => return Err(e),
            Ok(None) => return Ok(None),
            Ok(Some(b)) => b,
        };
        Ok(
            Some(
                Texture {
                    width: bitmap.width as u32,
                    height: bitmap.height as u32,
                    data: bitmap.data,
                    origin,
                    layer,
                },
            ),
        )
    }
}

/// Swaps the first and third byte of every whole four-byte pixel, turning
/// B, G, R, A into R, G, B, A and back; a trailing partial pixel is kept.
pub open spec fn swapped_channels(p: Seq<u8>) -> Seq<u8> {
    Seq::new(
        p.len(),
        |i: int|
            if i < p.len() - p.len() % 4 && i % 4 == 0 {
                p[i + 2]
            } else if i < p.len() - p.len() % 4 && i % 4 == 2 {
                p[i - 2]
            } else {
                p[i]
            },
    )
}

/// Reorders the channels of every pixel as `swapped_channels` says.
pub fn swap_red_blue(data: &mut Vec<u8>)
    ensures
        final(data)@ == swapped_channels(old(data)@),
{
    let ghost orig = data@;
    let n = data.len();
    let whole = n - n % 4;
    let mut i: usize = 0;
    while i < whole
        invariant
            n == orig.len(),
            whole == n - n % 4,
            i <= whole,
            i % 4 == 0,
            data@.len() == n,
            forall|j: int| 0 <= j < i ==> data@[j] == swapped_channels(orig)[j],
            forall|j: int| i <= j < n ==> data@[j] == orig[j],
        decreases whole - i,
    {
        let b = data[i];
        let r = data[i + 2];
        data.set(i, r);
        data.set(i + 2, b);
        i = i + 4;
    }
    proof {
        assert(data@ =~= swapped_channels(orig));
    }
}

/// Opened archives, each under the file name it was opened from.
pub struct AssetManager {
    pub files: Vec<(String, NxFile)>,
}

/// Index of the first archive named `name`.
pub open spec fn find_archive(files: Seq<(String, NxFile)>, name: Seq<u8>) -> Option<int>
    decreases files.len(),
{
    if files.len() == 0 {
        None
    } else if encode_utf8(files.last().0@) == name {
        match find_archive(files.drop_last(), name) {
            Some(i) => Some(i),
            None => Some(files.len() - 1),
        }
    } else {
        find_archive(files.drop_last(), name)
    }
}

/// What `get_texture` finds for the path `p`: the archive named by the part
/// before the first `/`, the node at the rest of the path from its root, and
/// that node's texture; `None` where any of these is missing or cannot be
/// read.
pub open spec fn spec_asset_texture(files: Seq<(String, NxFile)>, p: Seq<u8>) -> Option<
    (Option<(i32, i32)>, Option<i64>, u16, u16, Seq<u8>),
> {
    let k = first_slash(p);
    if k >= p.len() {
        None
    } else {
        match find_archive(files, p.take(k)) {
            None => None,
            Some(i) => {
                let f = files[i].1;
                match spec_path(f.bytes(), f.spec_header(), f.spec_root(), p.skip(k + 1)) {
                    Ok(Some(n)) => match spec_texture(f.bytes(), f.spec_header(), n) {
                        Ok(Some(v)) => Some(v),
                        _ => None,
                    },
                    _ => None,
                }
            },
        }
    }
}

impl AssetManager {
    pub fn new() -> (r: AssetManager)
        ensures
            r.files@.len() == 0,
    {
        AssetManager { files: Vec::new() }
    }

    /// The texture at `path`, written as an archive's file name, `/`, and the
    /// path of the node inside it (`UI.nx/Login.img/Title/signboard`).
    pub fn get_texture(&self, path: &str) -> (r: Option<Texture>)
        ensures
            match (r, spec_asset_texture(self.files@, path.spec_bytes())) {
                (None, None) => true,
                (Some(t), Some(v)) => texture_is(t, v),
                _ => false,
            },
    {
        let p = path.as_bytes();
        let k = crate::archive::slash_index(p);
        if k >= p.len() {
            return None;
        }
        let name = vstd::slice::slice_subrange(p, 0, k);
        let rest = vstd::slice::slice_subrange(p, k + 1, p.len());
        proof {
            assert(name@ =~= p@.take(k as int));
            assert(rest@ =~= p@.skip(k + 1));
        }
        let i = match self.find(name) {
            Some(i) => i,
            None => return None,
        };
        let file = &self.files[i].1;
        let node = match file.root().get_path_bytes(file, rest) {
            Ok(Some(n)) => n,
            _ => return None,
        };
        match Texture::load(&node, file) {
            Ok(Some(t)) => Some(t),
            _ => None,
        }
    }

    /// The texture at `path` with its channels in R, G, B, A order.
    pub fn get_texture_rgba(&self, path: &str) -> (r: Option<Texture>)
        ensures
            match (r, spec_asset_texture(self.files@, path.spec_bytes())) {
                (None, None) => true,
                (Some(t), Some(v)) => t.origin == v.0 && t.layer == v.1 && t.width == v.2
                    && t.height == v.3 && t.data@ == swapped_channels(v.4),
                _ => false,
            },
    {
        let mut texture = match self.get_texture(path) {
            Some(t) => t,
            None => return None,
        };
        swap_red_blue(&mut texture.data);
        Some(texture)
    }

    fn find(&self, name: &[u8]) -> (r: Option<usize>)
        ensures
            match (r, find_archive(self.files@, name@)) {
                (None, None) => true,
                (Some(i), Some(j)) => i == j,
                _ => false,
            },
            r matches Some(i) ==> i < self.files@.len(),
    {
        let mut i: usize = 0;
        while i < self.files.len()
            invariant
                i <= self.files@.len(),
                find_archive(self.files@.take(i as int), name@) is None,
            decreases self.files@.len() - i,
        {
            let c = compare_bytes(self.files[i].0.as_str().as_bytes(), name);
            proof {
                let s = self.files@.take(i + 1);
                assert(s.drop_last() =~= self.files@.take(i as int));
                lemma_find_prefix(self.files@, name@, i as int);
            }
            if c == 0 {
                return Some(i);
            }
            i = i + 1;
        }
        proof {
            assert(self.files@.take(i as int) =~= self.files@);
        }
        None
    }
}

/// Where the first `i` archives hold no match, the first match in `i + 1`
/// is at `i` if anywhere, and the search of the whole list agrees.
proof fn lemma_find_prefix(files: Seq<(String, NxFile)>, name: Seq<u8>, i: int)
    requires
        0 <= i < files.len(),
        find_archive(files.take(i), name) is None,
    ensures
        encode_utf8(files[i].0@) == name ==> find_archive(files, name) == Some(i),
        encode_utf8(files[i].0@) != name ==> find_archive(files.take(i + 1), name) is None,
    decreases files.len(),
{
    assert(files.take(i + 1).drop_last() =~= files.take(i));
    if i + 1 < files.len() {
        assert(files.drop_last().take(i) =~= files.take(i));
        lemma_find_prefix(files.drop_last(), name, i);
        assert(files.drop_last()[i] == files[i]);
        if encode_utf8(files[i].0@) == name {
            assert(find_archive(files, name) == find_archive(files.drop_last(), name)
                || find_archive(files.drop_last(), name) is Some);
        }
    } else {
        assert(files.take(i + 1) =~= files);
        assert(files.drop_last() =~= files.take(i));
    }
}

/// Paces updates and frames. Times are nanoseconds on a monotonic clock that
/// the caller reads.
pub struct FrameLimiter {
    pub tick_duration: u64,
    pub target_update_duration: u64,
    pub last_update_start: u64,
    pub target_frame_duration: u64,
    pub last_frame_start: u64,
}

/// Nanoseconds in a second.
pub const NANOS_PER_SEC: u64 = 1_000_000_000;

impl FrameLimiter {
    /// A limiter for `target_fps` updates and frames a second, started at
    /// `now`; ticks are 1/120 s.
    pub fn new(target_fps: u32, now: u64) -> (r: FrameLimiter)
        requires
            target_fps > 0,
        ensures
            r.tick_duration == NANOS_PER_SEC / 120,
            r.target_update_duration == NANOS_PER_SEC / target_fps as u64,
            r.target_frame_duration == NANOS_PER_SEC / target_fps as u64,
            r.last_update_start == now,
            r.last_frame_start == now,
    {
        FrameLimiter {
            tick_duration: NANOS_PER_SEC / 120,
            target_update_duration: NANOS_PER_SEC / target_fps as u64,
            last_update_start: now,
            target_frame_duration: NANOS_PER_SEC / target_fps as u64,
            last_frame_start: now,
        }
    }

    /// Whether more than the update period has passed since the last update
    /// began; a `now` before that start counts as no time passed.
    pub fn ready_for_update(&self, now: u64) -> (r: bool)
        ensures
            r == (now > self.last_update_start && now - self.last_update_start
                > self.target_update_duration),
    {
        now.saturating_sub(self.last_update_start) > self.target_update_duration
    }

    /// Whether more than the frame period has passed since the last frame
    /// began.
    pub fn ready_for_frame(&self, now: u64) -> (r: bool)
        ensures
            r == (now > self.last_frame_start && now - self.last_frame_start
                > self.target_frame_duration),
    {
        now.saturating_sub(self.last_frame_start) > self.target_frame_duration
    }
}

} // verus!
