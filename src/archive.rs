//! The archive: its header, its node table, its string table, and lookup of
//! children by name.
use vstd::prelude::*;
use vstd::string::StringSliceAdditionalSpecFns;
use vstd::utf8::{decode_utf8, decode_utf8_encode_utf8, valid_utf8};

use crate::bytes::{
    in_bounds, le_u16, le_u32, le_u64, read_bytes, read_u16, read_u32, read_u64, sat,
    spec_read_bytes, spec_read_u16, spec_read_u32, spec_read_u64,
};
use crate::error::NxError;
use crate::order::{bytes_lt, compare_bytes};

verus! {

/// The signature "PKG4" read as a little-endian `u32`.
pub const MAGIC: u32 = 0x34474B50;

/// The size of the header in bytes.
pub const HEADER_LEN: u64 = 52;

/// The size of a node record in bytes.
pub const NODE_LEN: u64 = 20;

/// The header at the start of an archive: the size and place of each table.
#[derive(Clone, Copy, Debug, PartialEq, Eq, Structural)]
pub struct NxHeader {
    pub node_count: u32,
    pub node_offset: u64,
    pub string_count: u32,
    pub string_offset: u64,
    pub bitmap_count: u32,
    pub bitmap_offset: u64,
    pub audio_count: u32,
    pub audio_offset: u64,
}

/// The header fields as they stand in `d`.
pub open spec fn header_at(d: Seq<u8>) -> NxHeader {
    NxHeader {
        node_count: le_u32(d, 4),
        node_offset: le_u64(d, 8),
        string_count: le_u32(d, 16),
        string_offset: le_u64(d, 20),
        bitmap_count: le_u32(d, 28),
        bitmap_offset: le_u64(d, 32),
        audio_count: le_u32(d, 40),
        audio_offset: le_u64(d, 44),
    }
}

/// The signature is checked before anything else is read.
pub open spec fn spec_parse_header(d: Seq<u8>) -> Result<NxHeader, NxError> {
    match spec_read_u32(d, 0) {
        Err(e) => Err(e),
        Ok(m) => if m != MAGIC {
            Err(NxError::InvalidMagicBytes)
        } else if !in_bounds(d, 0, HEADER_LEN as int) {
            Err(NxError::OutOfBounds { offset: 4, len: 48 })
        } else {
            Ok(header_at(d))
        },
    }
}

impl NxHeader {
    /// Decodes and checks the header at the start of `data`.
    pub fn new(data: &[u8]) -> (r: Result<NxHeader, NxError>)
        ensures
            r == spec_parse_header(data@),
    {
        let magic = match read_u32(data, 0) {
            Ok(m) => m,
            Err(e) => return Err(e),
        };
        if magic != MAGIC {
            return Err(NxError::InvalidMagicBytes);
        }
        if (data.len() as u64) < HEADER_LEN {
            return Err(NxError::OutOfBounds { offset: 4, len: 48 });
        }
        Ok(NxHeader {
            node_count: read_u32(data, 4).unwrap(),
            node_offset: read_u64(data, 8).unwrap(),
            string_count: read_u32(data, 16).unwrap(),
            string_offset: read_u64(data, 20).unwrap(),
            bitmap_count: read_u32(data, 28).unwrap(),
            bitmap_offset: read_u64(data, 32).unwrap(),
            audio_count: read_u32(data, 40).unwrap(),
            audio_offset: read_u64(data, 44).unwrap(),
        })
    }
}

/// How a node's payload is to be read.
#[derive(Clone, Copy, Debug, PartialEq, Eq, Structural)]
pub enum NodeType {
    Empty,
    Integer,
    Float,
    String,
    Vector,
    Bitmap,
    Audio,
}

/// The type that a stored tag stands for; unknown tags read as `Empty`.
pub open spec fn spec_node_type(tag: u16) -> NodeType {
    if tag == 1 {
        NodeType::Integer
    } else if tag == 2 {
        NodeType::Float
    } else if tag == 3 {
        NodeType::String
    } else if tag == 4 {
        NodeType::Vector
    } else if tag == 5 {
        NodeType::Bitmap
    } else if tag == 6 {
        NodeType::Audio
    } else {
        NodeType::Empty
    }
}

impl NodeType {
    pub fn from_tag(tag: u16) -> (r: NodeType)
        ensures
            r == spec_node_type(tag),
    {
        match tag {
            1 => NodeType::Integer,
            2 => NodeType::Float,
            3 => NodeType::String,
            4 => NodeType::Vector,
            5 => NodeType::Bitmap,
            6 => NodeType::Audio,
            _ => NodeType::Empty,
        }
    }
}

/// A decoded node record, with its own index in the node table.
#[derive(Clone, Copy, Debug, PartialEq, Eq, Structural)]
pub struct NxNode {
    pub index: u32,
    /// Index of the node's name in the string table.
    pub name: u32,
    /// Index of the first child in the node table.
    pub children: u32,
    /// Number of children.
    pub count: u16,
    pub data_type: NodeType,
    pub data: u64,
}

/// Byte position of record `index`.
pub open spec fn node_pos(h: NxHeader, index: int) -> int {
    h.node_offset + index * NODE_LEN
}

/// The record as it stands at byte `off`.
pub open spec fn node_at(d: Seq<u8>, off: int, index: u32) -> NxNode {
    NxNode {
        index,
        name: le_u32(d, off),
        children: le_u32(d, off + 4),
        count: le_u16(d, off + 8),
        data_type: spec_node_type(le_u16(d, off + 10)),
        data: le_u64(d, off + 12),
    }
}

/// The outcome of decoding node `index`.
#[verifier::opaque]
pub open spec fn spec_node(d: Seq<u8>, h: NxHeader, index: int) -> Result<NxNode, NxError> {
    if index < 0 || index >= h.node_count {
        Err(NxError::CorruptTable)
    } else if !in_bounds(d, sat(node_pos(h, index)) as int, NODE_LEN as int) {
        Err(NxError::OutOfBounds { offset: sat(node_pos(h, index)), len: NODE_LEN })
    } else {
        Ok(node_at(d, node_pos(h, index), index as u32))
    }
}

/// The outcome of resolving string `index`: its bytes, which are valid UTF-8.
#[verifier::opaque]
pub open spec fn spec_str_bytes(d: Seq<u8>, h: NxHeader, index: int) -> Result<Seq<u8>, NxError> {
    if index < 0 || index >= h.string_count {
        Err(NxError::CorruptTable)
    } else {
        match spec_read_u64(d, sat(h.string_offset + index * 8) as int) {
            Err(e) => Err(e),
            Ok(off) => match spec_read_u16(d, off as int) {
                Err(e) => Err(e),
                Ok(n) => match spec_read_bytes(d, sat(off + 2) as int, n as int) {
                    Err(e) => Err(e),
                    Ok(b) => if valid_utf8(b) {
                        Ok(b)
                    } else {
                        Err(NxError::InvalidString)
                    },
                },
            },
        }
    }
}

/// The name of node `k`.
pub open spec fn child_name(d: Seq<u8>, h: NxHeader, k: int) -> Result<Seq<u8>, NxError> {
    match spec_node(d, h, k) {
        Err(e) => Err(e),
        Ok(n) => spec_str_bytes(d, h, n.name as int),
    }
}

/// Binary search for the name `t` among the `count` records from index `lo`:
/// probe the middle one, stop on a match, else go on in the half where `t`
/// would sort. Any failure to read a probed record or its name ends the search.
pub open spec fn spec_search(d: Seq<u8>, h: NxHeader, lo: int, count: int, t: Seq<u8>) -> Result<
    Option<NxNode>,
    NxError,
>
    decreases count,
{
    if count <= 0 {
        Ok(None)
    } else {
        let p = lo + count / 2;
        match spec_node(d, h, p) {
            Err(e) => Err(e),
            Ok(n) => match spec_str_bytes(d, h, n.name as int) {
                Err(e) => Err(e),
                Ok(nm) => if nm == t {
                    Ok(Some(n))
                } else if bytes_lt(nm, t) {
                    spec_search(d, h, p + 1, count - count / 2 - 1, t)
                } else {
                    spec_search(d, h, lo, count / 2, t)
                },
            },
        }
    }
}

/// The child of `parent` named `t`.
pub open spec fn spec_child(d: Seq<u8>, h: NxHeader, parent: NxNode, t: Seq<u8>) -> Result<
    Option<NxNode>,
    NxError,
> {
    spec_search(d, h, parent.children as int, parent.count as int, t)
}

/// Index of the first `/` in `p`, or its length.
pub open spec fn first_slash(p: Seq<u8>) -> int
    decreases p.len(),
{
    if p.len() == 0 || p[0] == 0x2f {
        0
    } else {
        1 + first_slash(p.drop_first())
    }
}

/// The node reached from `node` by the `/`-separated names of `p`, stopping
/// at the first name that is not there.
pub open spec fn spec_path(d: Seq<u8>, h: NxHeader, node: NxNode, p: Seq<u8>) -> Result<
    Option<NxNode>,
    NxError,
>
    decreases p.len(),
{
    let k = first_slash(p);
    if 0 <= k <= p.len() {
        match spec_child(d, h, node, p.take(k)) {
            Err(e) => Err(e),
            Ok(None) => Ok(None),
            Ok(Some(c)) => if k >= p.len() {
                Ok(Some(c))
            } else {
                spec_path(d, h, c, p.skip(k + 1))
            },
        }
    } else {
        Ok(None)
    }
}

/// Opening: the header, then the root record at index 0.
pub open spec fn spec_open(d: Seq<u8>) -> Result<(NxHeader, NxNode), NxError> {
    match spec_parse_header(d) {
        Err(e) => Err(e),
        Ok(h) => match spec_node(d, h, 0) {
            Err(e) => Err(e),
            Ok(n) => Ok((h, n)),
        },
    }
}

/// Relies on `std::str::from_utf8`: it accepts exactly the valid UTF-8 byte
/// strings, and the `str` it returns holds the characters they encode.
#[verifier::external_body]
fn utf8_str(b: &[u8]) -> (r: Option<&str>)
    ensures
        r is Some <==> valid_utf8(b@),
        r matches Some(s) ==> s@ == decode_utf8(b@),
{
    std::str::from_utf8(b).ok()
}

/// An opened archive: its bytes and its decoded header and root.
pub struct NxFile {
    data: Vec<u8>,
    header: NxHeader,
    root: NxNode,
}

impl NxFile {
    pub closed spec fn bytes(&self) -> Seq<u8> {
        self.data@
    }

    pub closed spec fn spec_header(&self) -> NxHeader {
        self.header
    }

    pub closed spec fn spec_root(&self) -> NxNode {
        self.root
    }

    /// Takes ownership of an archive's bytes, checking the header and the root
    /// record.
    pub fn from_bytes(data: Vec<u8>) -> (r: Result<NxFile, NxError>)
        ensures
            match spec_open(data@) {
                Ok((h, n)) => r matches Ok(f) && f.bytes() == data@ && f.spec_header() == h
                    && f.spec_root() == n,
                Err(e) => r matches Err(f) && f == e,
            },
    {
        let header = match NxHeader::new(data.as_slice()) {
            Ok(h) => h,
            Err(e) => return Err(e),
        };
        let root = match node_of(data.as_slice(), &header, 0) {
            Ok(n) => n,
            Err(e) => return Err(e),
        };
        Ok(NxFile { data, header, root })
    }

    pub fn header(&self) -> (r: NxHeader)
        ensures
            r == self.spec_header(),
    {
        self.header
    }

    /// The node at index 0.
    pub fn root(&self) -> (r: NxNode)
        ensures
            r == self.spec_root(),
    {
        self.root
    }

    /// Decodes node `index`.
    pub fn node(&self, index: u64) -> (r: Result<NxNode, NxError>)
        ensures
            r == spec_node(self.bytes(), self.spec_header(), index as int),
    {
        node_of(self.data.as_slice(), &self.header, index)
    }

    /// Resolves string `index` to text borrowed from the archive.
    pub fn get_str(&self, index: u32) -> (r: Result<&str, NxError>)
        ensures
            r is Ok <==> spec_str_bytes(self.bytes(), self.spec_header(), index as int) is Ok,
            r matches Ok(s) ==> s.spec_bytes() == spec_str_bytes(
                self.bytes(),
                self.spec_header(),
                index as int,
            )->Ok_0 && s@ == decode_utf8(s.spec_bytes()),
            r matches Err(e) ==> spec_str_bytes(self.bytes(), self.spec_header(), index as int)
                == Err::<Seq<u8>, NxError>(e),
    {
        str_of(self.data.as_slice(), &self.header, index)
    }

    /// The slice of the buffer, for the decoders of blob tables.
    pub(crate) fn data(&self) -> (r: &[u8])
        ensures
            r@ == self.bytes(),
    {
        self.data.as_slice()
    }

    pub(crate) fn find_child(&self, parent: &NxNode, t: &[u8]) -> (r: Result<Option<NxNode>, NxError>)
        ensures
            r == spec_child(self.bytes(), self.spec_header(), *parent, t@),
    {
        let ghost d = self.bytes();
        let ghost h = self.spec_header();
        let mut lo: u64 = parent.children as u64;
        let mut count: u64 = parent.count as u64;
        while count > 0
            invariant
                d == self.bytes(),
                h == self.spec_header(),
                lo + count <= 0x1_0001_0000,
                spec_search(d, h, lo as int, count as int, t@) == spec_child(d, h, *parent, t@),
            decreases count,
        {
            let mid = count / 2;
            let p = lo + mid;
            let n = match self.node(p) {
                Ok(n) => n,
                Err(e) => return Err(e),
            };
            let s = match self.get_str(n.name) {
                Ok(s) => s,
                Err(e) => return Err(e),
            };
            let nm = s.as_bytes();
            let c = compare_bytes(nm, t);
            if c == 0 {
                return Ok(Some(n));
            }
            if c < 0 {
                lo = p + 1;
                count = count - mid - 1;
            } else {
                count = mid;
            }
        }
        Ok(None)
    }
}

impl NxNode {
    /// The child named `name`: `None` where no child has that name.
    pub fn get(&self, file: &NxFile, name: &str) -> (r: Result<Option<NxNode>, NxError>)
        ensures
            r == spec_child(file.bytes(), file.spec_header(), *self, name.spec_bytes()),
    {
        file.find_child(self, name.as_bytes())
    }

    /// The node reached by the `/`-separated names of `path`.
    pub fn get_path(&self, file: &NxFile, path: &str) -> (r: Result<Option<NxNode>, NxError>)
        ensures
            r == spec_path(file.bytes(), file.spec_header(), *self, path.spec_bytes()),
    {
        self.get_path_bytes(file, path.as_bytes())
    }

    pub(crate) fn get_path_bytes(&self, file: &NxFile, p: &[u8]) -> (r: Result<
        Option<NxNode>,
        NxError,
    >)
        ensures
            r == spec_path(file.bytes(), file.spec_header(), *self, p@),
    {
        let ghost d = file.bytes();
        let ghost h = file.spec_header();
        let mut rest: &[u8] = p;
        let mut node: NxNode = *self;
        loop
            invariant
                d == file.bytes(),
                h == file.spec_header(),
                spec_path(d, h, node, rest@) == spec_path(d, h, *self, p@),
            decreases rest@.len(),
        {
            let k = slash_index(rest);
            let seg = vstd::slice::slice_subrange(rest, 0, k);
            proof {
                assert(seg@ =~= rest@.take(k as int));
            }
            let child = match file.find_child(&node, seg) {
                Err(e) => return Err(e),
                Ok(None) => return Ok(None),
                Ok(Some(c)) => c,
            };
            if k >= rest.len() {
                return Ok(Some(child));
            }
            let next = vstd::slice::slice_subrange(rest, k + 1, rest.len());
            proof {
                assert(next@ =~= rest@.skip(k + 1));
            }
            rest = next;
            node = child;
        }
    }
}

/// Index of the first `/` in `p`, or its length.
pub(crate) fn slash_index(p: &[u8]) -> (r: usize)
    ensures
        r as int == first_slash(p@),
        r <= p@.len(),
{
    let mut i: usize = 0;
    proof {
        assert(p@.skip(0) =~= p@);
    }
    while i < p.len() && p[i] != 0x2f
        invariant
            i <= p@.len(),
            first_slash(p@) == i + first_slash(p@.skip(i as int)),
            forall|j: int| 0 <= j < i ==> p@[j] != 0x2f,
        decreases p@.len() - i,
    {
        proof {
            assert(p@.skip(i as int).drop_first() =~= p@.skip(i + 1));
        }
        i = i + 1;
    }
    i
}

fn node_of(data: &[u8], h: &NxHeader, index: u64) -> (r: Result<NxNode, NxError>)
    ensures
        r == spec_node(data@, *h, index as int),
{
    reveal(spec_node);
    let len = data.len();
    if index >= h.node_count as u64 {
        return Err(NxError::CorruptTable);
    }
    let off = h.node_offset.saturating_add(index * NODE_LEN);
    let rec = match read_bytes(data, off, NODE_LEN) {
        Ok(b) => b,
        Err(e) => return Err(e),
    };
    proof {
        assert(rec@ =~= data@.subrange(off as int, off + 20));
    }
    Ok(NxNode {
        index: index as u32,
        name: read_u32(data, off).unwrap(),
        children: read_u32(data, off + 4).unwrap(),
        count: read_u16(data, off + 8).unwrap(),
        data_type: NodeType::from_tag(read_u16(data, off + 10).unwrap()),
        data: read_u64(data, off + 12).unwrap(),
    })
}

fn str_of<'a>(data: &'a [u8], h: &NxHeader, index: u32) -> (r: Result<&'a str, NxError>)
    ensures
        r is Ok <==> spec_str_bytes(data@, *h, index as int) is Ok,
        r matches Ok(s) ==> s.spec_bytes() == spec_str_bytes(data@, *h, index as int)->Ok_0 && s@
            == decode_utf8(s.spec_bytes()),
        r matches Err(e) ==> spec_str_bytes(data@, *h, index as int) == Err::<Seq<u8>, NxError>(e),
{
    reveal(spec_str_bytes);
    if index >= h.string_count {
        return Err(NxError::CorruptTable);
    }
    let ptr = h.string_offset.saturating_add(index as u64 * 8);
    let off = match read_u64(data, ptr) {
        Ok(o) => o,
        Err(e) => return Err(e),
    };
    let n = match read_u16(data, off) {
        Ok(n) => n,
        Err(e) => return Err(e),
    };
    let b = match read_bytes(data, off.saturating_add(2), n as u64) {
        Ok(b) => b,
        Err(e) => return Err(e),
    };
    match utf8_str(b) {
        Some(s) => {
            proof {
                decode_utf8_encode_utf8(b@);
            }
            Ok(s)
        },
        None => Err(NxError::InvalidString),
    }
}

} // verus!
