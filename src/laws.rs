//! Properties of the archive format that hold for every buffer.
use vstd::prelude::*;
use vstd::utf8::{decode_utf8, encode_utf8, encode_utf8_decode_utf8, encode_utf8_valid_utf8};

use crate::archive::{
    child_name, node_pos, spec_child, spec_node, spec_open, spec_parse_header, spec_search,
    spec_str_bytes, NxHeader, NxNode, HEADER_LEN, MAGIC, NODE_LEN,
};
use crate::bytes::{in_bounds, le_u16, le_u32, le_u64, sat};
use crate::error::NxError;
use crate::order::{bytes_lt, lemma_bytes_lt_asymmetric};

verus! {

/// Every child in `count` records from `lo` can be read, name included.
pub open spec fn children_readable(d: Seq<u8>, h: NxHeader, lo: int, count: int) -> bool {
    forall|k: int| lo <= k < lo + count ==> (#[trigger] child_name(d, h, k)) is Ok
}

/// The names of the `count` records from `lo` are in strictly increasing
/// byte order.
pub open spec fn children_sorted(d: Seq<u8>, h: NxHeader, lo: int, count: int) -> bool {
    forall|i: int, j: int|
        lo <= i < j < lo + count ==> bytes_lt(
            (#[trigger] child_name(d, h, i))->Ok_0,
            (#[trigger] child_name(d, h, j))->Ok_0,
        )
}

proof fn lemma_search(d: Seq<u8>, h: NxHeader, lo: int, count: int, t: Seq<u8>)
    requires
        count >= 0,
        children_readable(d, h, lo, count),
        children_sorted(d, h, lo, count),
    ensures
        spec_search(d, h, lo, count, t) is Ok,
        spec_search(d, h, lo, count, t) matches Ok(Some(n)) ==> lo <= n.index < lo + count
            && spec_node(d, h, n.index as int) == Ok::<NxNode, NxError>(n) && child_name(
            d,
            h,
            n.index as int,
        ) == Ok::<Seq<u8>, NxError>(t),
        spec_search(d, h, lo, count, t) matches Ok(None) <==> forall|k: int|
            lo <= k < lo + count ==> child_name(d, h, k) != Ok::<Seq<u8>, NxError>(t),
    decreases count,
{
    if count > 0 {
        let p = lo + count / 2;
        assert(child_name(d, h, p) is Ok);
        reveal(spec_node);
        let n = spec_node(d, h, p)->Ok_0;
        let nm = child_name(d, h, p)->Ok_0;
        assert(n.index as int == p);
        if nm == t {
        } else if bytes_lt(nm, t) {
            let lo2 = p + 1;
            let c2 = count - count / 2 - 1;
            lemma_search(d, h, lo2, c2, t);
            assert forall|k: int| lo <= k <= p implies child_name(d, h, k) != Ok::<
                Seq<u8>,
                NxError,
            >(t) by {
                assert(child_name(d, h, k) is Ok);
                lemma_bytes_lt_asymmetric(nm, t);
                if k < p {
                    assert(bytes_lt(child_name(d, h, k)->Ok_0, child_name(d, h, p)->Ok_0));
                }
            }
        } else {
            lemma_search(d, h, lo, count / 2, t);
            assert forall|k: int| p <= k < lo + count implies child_name(d, h, k) != Ok::<
                Seq<u8>,
                NxError,
            >(t) by {
                assert(child_name(d, h, k) is Ok);
                if k > p {
                    assert(bytes_lt(child_name(d, h, p)->Ok_0, child_name(d, h, k)->Ok_0));
                }
            }
        }
    }
}

/// Lookup by name is exact on a node whose children can all be read and are
/// stored in increasing byte order of their names: it finds a child exactly
/// when one has the name asked for, the child it returns carries that name,
/// and it does not fail. This covers names that sort before the first child
/// or after the last.
pub proof fn lemma_get_exact(d: Seq<u8>, h: NxHeader, parent: NxNode, name: Seq<u8>)
    requires
        children_readable(d, h, parent.children as int, parent.count as int),
        children_sorted(d, h, parent.children as int, parent.count as int),
    ensures
        spec_child(d, h, parent, name) is Ok,
        spec_child(d, h, parent, name) matches Ok(Some(n)) ==> parent.children <= n.index
            < parent.children + parent.count && child_name(d, h, n.index as int) == Ok::<
            Seq<u8>,
            NxError,
        >(name),
        spec_child(d, h, parent, name) is Ok && spec_child(d, h, parent, name)->Ok_0 is Some
            <==> exists|k: int|
            parent.children <= k < parent.children + parent.count && child_name(d, h, k) == Ok::<
                Seq<u8>,
                NxError,
            >(name),
{
    lemma_search(d, h, parent.children as int, parent.count as int, name);
}

/// How many records the search for `t` probes: one per halving of the range.
pub open spec fn search_probes(d: Seq<u8>, h: NxHeader, lo: int, count: int, t: Seq<u8>) -> nat
    decreases count,
{
    if count <= 0 {
        0
    } else {
        let p = lo + count / 2;
        match spec_node(d, h, p) {
            Err(_) => 1,
            Ok(n) => match spec_str_bytes(d, h, n.name as int) {
                Err(_) => 1,
                Ok(nm) => if nm == t {
                    1
                } else if bytes_lt(nm, t) {
                    1 + search_probes(d, h, p + 1, count - count / 2 - 1, t)
                } else {
                    1 + search_probes(d, h, lo, count / 2, t)
                },
            },
        }
    }
}

/// The number of binary digits of `c`: `floor(log2(c)) + 1` for `c > 0`.
pub open spec fn bit_length(c: int) -> nat
    decreases c,
{
    if c <= 0 {
        0
    } else {
        1 + bit_length(c / 2)
    }
}

proof fn lemma_bit_length_monotone(a: int, b: int)
    requires
        a <= b,
    ensures
        bit_length(a) <= bit_length(b),
    decreases b,
{
    if a > 0 {
        lemma_bit_length_monotone(a / 2, b / 2);
    }
}

/// The search over `count` children probes at most `floor(log2(count)) + 1`
/// of them, whatever the name sought.
pub proof fn lemma_search_logarithmic(d: Seq<u8>, h: NxHeader, lo: int, count: int, t: Seq<u8>)
    ensures
        search_probes(d, h, lo, count, t) <= bit_length(count),
    decreases count,
{
    if count > 0 {
        let p = lo + count / 2;
        lemma_search_logarithmic(d, h, p + 1, count - count / 2 - 1, t);
        lemma_search_logarithmic(d, h, lo, count / 2, t);
        lemma_bit_length_monotone(count - count / 2 - 1, count / 2);
    }
}

/// Opening a buffer that opens, cut short anywhere before the end of its
/// root record, fails with `OutOfBounds`: no partial archive comes back.
pub proof fn lemma_truncated_open(d: Seq<u8>, cut: int)
    requires
        spec_open(d) is Ok,
        0 <= cut < d.len(),
        cut < node_pos(spec_open(d)->Ok_0.0, 0) + NODE_LEN,
    ensures
        spec_open(d.take(cut)) matches Err(e) && e is OutOfBounds,
{
    reveal(spec_node);
    let t = d.take(cut);
    let h = spec_open(d)->Ok_0.0;
    if cut >= 4 {
        assert(t[0] == d[0] && t[1] == d[1] && t[2] == d[2] && t[3] == d[3]);
        assert(le_u32(t, 0) == le_u32(d, 0));
    }
    if cut >= HEADER_LEN {
        assert(forall|i: int| 0 <= i < HEADER_LEN ==> t[i] == d[i]);
        assert(spec_parse_header(t) == spec_parse_header(d));
        assert(sat(node_pos(h, 0)) as int == node_pos(h, 0));
    }
}

/// Changing any one of the four signature bytes of a buffer that opens makes
/// it fail to open with `InvalidMagicBytes`.
pub proof fn lemma_magic_rejected(d: Seq<u8>, i: int, b: u8)
    requires
        spec_open(d) is Ok,
        0 <= i < 4,
        b != d[i],
    ensures
        spec_open(d.update(i, b)) == Err::<(NxHeader, NxNode), NxError>(NxError::InvalidMagicBytes),
{
    let u = d.update(i, b);
    assert(le_u32(d, 0) == MAGIC);
    assert(u[0] as int + u[1] as int * 0x100 + u[2] as int * 0x1_0000 + u[3] as int * 0x100_0000
        != d[0] as int + d[1] as int * 0x100 + d[2] as int * 0x1_0000 + d[3] as int * 0x100_0000);
    assert(le_u32(u, 0) != MAGIC);
}

/// A string stored in the string table as a `u16` length followed by its
/// UTF-8 bytes resolves to those bytes, which decode to the same string.
pub proof fn lemma_string_round_trip(d: Seq<u8>, h: NxHeader, index: int, s: Seq<char>)
    requires
        d.len() <= u64::MAX,
        0 <= index < h.string_count,
        in_bounds(d, h.string_offset + index * 8, 8),
        in_bounds(d, le_u64(d, h.string_offset + index * 8) as int, 2),
        le_u16(d, le_u64(d, h.string_offset + index * 8) as int) == encode_utf8(s).len(),
        in_bounds(
            d,
            le_u64(d, h.string_offset + index * 8) + 2,
            encode_utf8(s).len() as int,
        ),
        d.subrange(
            le_u64(d, h.string_offset + index * 8) + 2,
            le_u64(d, h.string_offset + index * 8) + 2 + encode_utf8(s).len(),
        ) == encode_utf8(s),
    ensures
        spec_str_bytes(d, h, index) == Ok::<Seq<u8>, NxError>(encode_utf8(s)),
        decode_utf8(spec_str_bytes(d, h, index)->Ok_0) == s,
{
    reveal(spec_str_bytes);
    let ptr = h.string_offset + index * 8;
    let off = le_u64(d, ptr);
    assert(sat(ptr) as int == ptr);
    assert(sat(off + 2) as int == off + 2);
    encode_utf8_valid_utf8(s);
    encode_utf8_decode_utf8(s);
}

} // verus!
