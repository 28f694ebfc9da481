//! Reading a node's payload as a typed value.
use vstd::prelude::*;
use vstd::utf8::decode_utf8;

use crate::archive::{spec_str_bytes, NodeType, NxFile, NxHeader, NxNode};
use crate::bytes::{read_bytes, read_u32, read_u64, sat, spec_read_bytes, spec_read_u32, spec_read_u64};
use crate::error::NxError;

verus! {

/// What the LZ4 block decoder makes of `input` when it may write at most
/// `capacity` bytes: `None` where it rejects the input.
pub uninterp spec fn lz4_block_decoded(input: Seq<u8>, capacity: nat) -> Option<Seq<u8>>;

/// Relies on `lz4_flex::decompress`: with its default (checked, safe)
/// decoder it returns the decoded block, at most `capacity` bytes long, or an
/// error for input that is not a valid block or does not fit.
#[verifier::external_body]
fn lz4_decompress(input: &[u8], capacity: u64) -> (r: Option<Vec<u8>>)
    ensures
        r is Some <==> lz4_block_decoded(input@, capacity as nat) is Some,
        r matches Some(v) ==> v@ == lz4_block_decoded(input@, capacity as nat)->Some_0 && v@.len()
            <= capacity,
{
    lz4_flex::decompress(input, capacity as usize).ok()
}

/// `x` read as a two's complement 64-bit integer.
pub open spec fn signed64(x: u64) -> i64 {
    if x <= i64::MAX {
        x as i64
    } else {
        (x - 0x1_0000_0000_0000_0000) as i64
    }
}

/// `x` read as a two's complement 32-bit integer.
pub open spec fn signed32(x: u32) -> i32 {
    if x <= i32::MAX {
        x as i32
    } else {
        (x - 0x1_0000_0000) as i32
    }
}

/// The low 32 bits of a payload.
pub open spec fn low32(p: u64) -> u32 {
    (p % 0x1_0000_0000) as u32
}

/// The high 32 bits of a payload.
pub open spec fn high32(p: u64) -> u32 {
    (p / 0x1_0000_0000) as u32
}

/// A bitmap's width: bits 32 to 47 of its payload.
pub open spec fn bitmap_width(p: u64) -> u16 {
    (high32(p) % 0x1_0000) as u16
}

/// A bitmap's height: bits 48 to 63 of its payload.
pub open spec fn bitmap_height(p: u64) -> u16 {
    (high32(p) / 0x1_0000) as u16
}

/// The blob of entry `index` of a table at `table` with `count` entries: an
/// 8-byte offset, and there a `u32` length followed by that many bytes.
pub open spec fn spec_blob(d: Seq<u8>, table: u64, count: u32, index: int) -> Result<
    Seq<u8>,
    NxError,
> {
    if index < 0 || index >= count {
        Err(NxError::CorruptTable)
    } else {
        match spec_read_u64(d, sat(table + index * 8) as int) {
            Err(e) => Err(e),
            Ok(off) => match spec_read_u32(d, off as int) {
                Err(e) => Err(e),
                Ok(n) => spec_read_bytes(d, sat(off + 4) as int, n as int),
            },
        }
    }
}

/// A bitmap decompressed to `width * height` pixels of four bytes each, in
/// the stored channel order B, G, R, A.
pub struct DecodedBitmap {
    pub width: u16,
    pub height: u16,
    pub data: Vec<u8>,
}

/// A raw audio blob, not decoded.
pub struct RawBlob {
    pub data: Vec<u8>,
}

/// Whether a decoder's output is a full bitmap of the given size.
pub open spec fn spec_bitmap_ok(width: u16, height: u16, decoded: Option<Seq<u8>>) -> bool {
    decoded matches Some(v) && v.len() == width * height * 4
}

/// The contents of an optional buffer.
pub open spec fn opt_view(o: Option<Vec<u8>>) -> Option<Seq<u8>> {
    match o {
        Some(v) => Some(v@),
        None => None,
    }
}

impl DecodedBitmap {
    /// Accepts a decoder's output as the bitmap only when it holds exactly
    /// `width * height * 4` bytes.
    pub fn from_decoded(width: u16, height: u16, decoded: Option<Vec<u8>>) -> (r: Result<
        DecodedBitmap,
        NxError,
    >)
        ensures
            r is Ok <==> spec_bitmap_ok(width, height, opt_view(decoded)),
            r matches Ok(b) ==> b.width == width && b.height == height && (decoded matches Some(v)
                && b.data@ == v@),
            r matches Err(e) ==> e == NxError::DecompressionFailed,
    {
        match decoded {
            Some(v) => {
                if v.len() as u64 == pixel_bytes(width, height) {
                    Ok(DecodedBitmap { width, height, data: v })
                } else {
                    Err(NxError::DecompressionFailed)
                }
            },
            None => Err(NxError::DecompressionFailed),
        }
    }
}

fn blob_of<'a>(data: &'a [u8], table: u64, count: u32, index: u32) -> (r: Result<&'a [u8], NxError>)
    ensures
        match (r, spec_blob(data@, table, count, index as int)) {
            (Ok(b), Ok(s)) => b@ == s,
            (Err(e), Err(f)) => e == f,
            _ => false,
        },
{
    if index >= count {
        return Err(NxError::CorruptTable);
    }
    let ptr = table.saturating_add(index as u64 * 8);
    let off = match read_u64(data, ptr) {
        Ok(o) => o,
        Err(e) => return Err(e),
    };
    let n = match read_u32(data, off) {
        Ok(n) => n,
        Err(e) => return Err(e),
    };
    read_bytes(data, off.saturating_add(4), n as u64)
}

/// The value of an `Integer` node.
pub open spec fn spec_integer(n: NxNode) -> Option<i64> {
    if n.data_type == NodeType::Integer {
        Some(signed64(n.data))
    } else {
        None
    }
}

/// The value of a `Vector` node.
pub open spec fn spec_vector(n: NxNode) -> Option<(i32, i32)> {
    if n.data_type == NodeType::Vector {
        Some((signed32(low32(n.data)), signed32(high32(n.data))))
    } else {
        None
    }
}

/// The width, height and pixels of a `Bitmap` node.
pub open spec fn spec_bitmap(d: Seq<u8>, h: NxHeader, n: NxNode) -> Result<
    Option<(u16, u16, Seq<u8>)>,
    NxError,
> {
    if n.data_type != NodeType::Bitmap {
        Ok(None)
    } else {
        let w = bitmap_width(n.data);
        let ht = bitmap_height(n.data);
        match spec_blob(d, h.bitmap_offset, h.bitmap_count, low32(n.data) as int) {
            Err(e) => Err(e),
            Ok(b) => {
                let out = lz4_block_decoded(b, (w * ht * 4) as nat);
                if spec_bitmap_ok(w, ht, out) {
                    Ok(Some((w, ht, out->Some_0)))
                } else {
                    Err(NxError::DecompressionFailed)
                }
            },
        }
    }
}

impl NxNode {
    /// The payload as a signed integer, for an `Integer` node.
    pub fn as_integer(&self) -> (r: Option<i64>)
        ensures
            r == spec_integer(*self),
    {
        if self.data_type != NodeType::Integer {
            return None;
        }
        if self.data <= i64::MAX as u64 {
            Some(self.data as i64)
        } else {
            Some((self.data - i64::MAX as u64 - 1) as i64 + i64::MIN)
        }
    }

    /// The payload's bits, for a `Float` node; they are an IEEE 754 double.
    pub fn as_float_bits(&self) -> (r: Option<u64>)
        ensures
            r == (if self.data_type == NodeType::Float {
                Some(self.data)
            } else {
                None
            }),
    {
        if self.data_type == NodeType::Float {
            Some(self.data)
        } else {
            None
        }
    }

    /// The payload as a pair `(x, y)` of signed 32-bit integers, low half
    /// first, for a `Vector` node.
    pub fn as_vector(&self) -> (r: Option<(i32, i32)>)
        ensures
            r == spec_vector(*self),
    {
        if self.data_type != NodeType::Vector {
            return None;
        }
        let lo = (self.data % 0x1_0000_0000) as u32;
        let hi = (self.data / 0x1_0000_0000) as u32;
        Some((to_i32(lo), to_i32(hi)))
    }

    /// The text of a `String` node, whose payload's low 32 bits index the
    /// string table.
    pub fn as_string<'a>(&self, file: &'a NxFile) -> (r: Result<Option<&'a str>, NxError>)
        ensures
            self.data_type != NodeType::String ==> r == Ok::<Option<&str>, NxError>(None),
            self.data_type == NodeType::String ==> {
                let s = spec_str_bytes(file.bytes(), file.spec_header(), low32(self.data) as int);
                &&& r is Ok <==> s is Ok
                &&& r matches Ok(Some(t)) ==> t@ == decode_utf8(s->Ok_0)
                &&& r matches Err(e) ==> s == Err::<Seq<u8>, NxError>(e)
                &&& !(r matches Ok(None))
            },
    {
        if self.data_type != NodeType::String {
            return Ok(None);
        }
        match file.get_str((self.data % 0x1_0000_0000) as u32) {
            Ok(s) => Ok(Some(s)),
            Err(e) => Err(e),
        }
    }

    /// The pixels of a `Bitmap` node: its payload holds the bitmap table
    /// index in its low 32 bits, then the width and the height.
    pub fn as_bitmap(&self, file: &NxFile) -> (r: Result<Option<DecodedBitmap>, NxError>)
        ensures
            match (r, spec_bitmap(file.bytes(), file.spec_header(), *self)) {
                (Ok(None), Ok(None)) => true,
                (Ok(Some(bm)), Ok(Some((w, ht, px)))) => bm.width == w && bm.height == ht
                    && bm.data@ == px,
                (Err(e), Err(f)) => e == f,
                _ => false,
            },
            r matches Ok(Some(bm)) ==> bm.data@.len() == bm.width * bm.height * 4,
    {
        if self.data_type != NodeType::Bitmap {
            return Ok(None);
        }
        let h = file.header();
        let index = (self.data % 0x1_0000_0000) as u32;
        let high = self.data / 0x1_0000_0000;
        let width = (high % 0x1_0000) as u16;
        let height = (high / 0x1_0000) as u16;
        let blob = match blob_of(file.data(), h.bitmap_offset, h.bitmap_count, index) {
            Ok(b) => b,
            Err(e) => return Err(e),
        };
        let decoded = lz4_decompress(blob, pixel_bytes(width, height));
        match DecodedBitmap::from_decoded(width, height, decoded) {
            Ok(b) => Ok(Some(b)),
            Err(e) => Err(e),
        }
    }

    /// The raw blob of an `Audio` node, whose payload's low 32 bits index the
    /// audio table.
    pub fn as_audio(&self, file: &NxFile) -> (r: Result<Option<RawBlob>, NxError>)
        ensures
            self.data_type != NodeType::Audio ==> r matches Ok(None),
            self.data_type == NodeType::Audio ==> {
                let h = file.spec_header();
                match spec_blob(file.bytes(), h.audio_offset, h.audio_count, low32(self.data) as int) {
                    Err(e) => (r matches Err(f) && f == e),
                    Ok(b) => (r matches Ok(Some(a)) && a.data@ == b),
                }
            },
    {
        if self.data_type != NodeType::Audio {
            return Ok(None);
        }
        let h = file.header();
        let index = (self.data % 0x1_0000_0000) as u32;
        match blob_of(file.data(), h.audio_offset, h.audio_count, index) {
            Ok(b) => Ok(Some(RawBlob { data: vstd::slice::slice_to_vec(b) })),
            Err(e) => Err(e),
        }
    }
}

/// The size of a `width` by `height` bitmap at four bytes a pixel.
fn pixel_bytes(width: u16, height: u16) -> (r: u64)
    ensures
        r == width * height * 4,
{
    proof {
        assert(width * height <= 0xffff * 0xffff) by (nonlinear_arith)
            requires
                width <= 0xffff,
                height <= 0xffff,
        ;
    }
    width as u64 * height as u64 * 4
}

fn to_i32(x: u32) -> (r: i32)
    ensures
        r == signed32(x),
{
    if x <= i32::MAX as u32 {
        x as i32
    } else {
        (x - i32::MAX as u32 - 1) as i32 + i32::MIN
    }
}

} // verus!
