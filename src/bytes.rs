//! Bounds-checked little-endian reads from a byte buffer.
use vstd::prelude::*;

use crate::error::NxError;

verus! {

/// `x` as a `u64`, or `u64::MAX` where it does not fit.
pub open spec fn sat(x: int) -> u64 {
    if x < 0 {
        0
    } else if x > u64::MAX {
        u64::MAX
    } else {
        x as u64
    }
}

/// Whether `len` bytes at `off` lie inside `d`.
pub open spec fn in_bounds(d: Seq<u8>, off: int, len: int) -> bool {
    0 <= off && off + len <= d.len()
}

pub open spec fn le_u16(d: Seq<u8>, off: int) -> u16 {
    (d[off] as int + d[off + 1] as int * 0x100) as u16
}

pub open spec fn le_u32(d: Seq<u8>, off: int) -> u32 {
    (le_u16(d, off) as int + le_u16(d, off + 2) as int * 0x1_0000) as u32
}

pub open spec fn le_u64(d: Seq<u8>, off: int) -> u64 {
    (le_u32(d, off) as int + le_u32(d, off + 4) as int * 0x1_0000_0000) as u64
}

/// The outcome of reading `len` bytes at `off`.
pub open spec fn spec_read_bytes(d: Seq<u8>, off: int, len: int) -> Result<Seq<u8>, NxError> {
    if in_bounds(d, off, len) {
        Ok(d.subrange(off, off + len))
    } else {
        Err(NxError::OutOfBounds { offset: sat(off), len: sat(len) })
    }
}

pub open spec fn spec_read_u16(d: Seq<u8>, off: int) -> Result<u16, NxError> {
    if in_bounds(d, off, 2) {
        Ok(le_u16(d, off))
    } else {
        Err(NxError::OutOfBounds { offset: sat(off), len: 2 })
    }
}

pub open spec fn spec_read_u32(d: Seq<u8>, off: int) -> Result<u32, NxError> {
    if in_bounds(d, off, 4) {
        Ok(le_u32(d, off))
    } else {
        Err(NxError::OutOfBounds { offset: sat(off), len: 4 })
    }
}

pub open spec fn spec_read_u64(d: Seq<u8>, off: int) -> Result<u64, NxError> {
    if in_bounds(d, off, 8) {
        Ok(le_u64(d, off))
    } else {
        Err(NxError::OutOfBounds { offset: sat(off), len: 8 })
    }
}

fn fits(data: &[u8], offset: u64, len: u64) -> (r: bool)
    ensures
        r == in_bounds(data@, offset as int, len as int),
{
    let n = data.len();
    if offset > u64::MAX - len {
        false
    } else {
        offset + len <= n as u64
    }
}

/// Reads a little-endian `u16` at `offset`.
pub fn read_u16(data: &[u8], offset: u64) -> (r: Result<u16, NxError>)
    ensures
        r == spec_read_u16(data@, offset as int),
{
    if !fits(data, offset, 2) {
        return Err(NxError::OutOfBounds { offset, len: 2 });
    }
    let i = offset as usize;
    Ok(data[i] as u16 + data[i + 1] as u16 * 0x100)
}

/// Reads a little-endian `u32` at `offset`.
pub fn read_u32(data: &[u8], offset: u64) -> (r: Result<u32, NxError>)
    ensures
        r == spec_read_u32(data@, offset as int),
{
    if !fits(data, offset, 4) {
        return Err(NxError::OutOfBounds { offset, len: 4 });
    }
    let i = offset as usize;
    let lo = data[i] as u32 + data[i + 1] as u32 * 0x100;
    let hi = data[i + 2] as u32 + data[i + 3] as u32 * 0x100;
    Ok(lo + hi * 0x1_0000)
}

/// Reads a little-endian `u64` at `offset`.
pub fn read_u64(data: &[u8], offset: u64) -> (r: Result<u64, NxError>)
    ensures
        r == spec_read_u64(data@, offset as int),
{
    if !fits(data, offset, 8) {
        return Err(NxError::OutOfBounds { offset, len: 8 });
    }
    let n = data.len();
    let lo = read_u32(data, offset).unwrap();
    let hi = read_u32(data, offset + 4).unwrap();
    Ok(lo as u64 + hi as u64 * 0x1_0000_0000)
}

/// Borrows `len` bytes at `offset`.
pub fn read_bytes(data: &[u8], offset: u64, len: u64) -> (r: Result<&[u8], NxError>)
    ensures
        match (r, spec_read_bytes(data@, offset as int, len as int)) {
            (Ok(b), Ok(s)) => b@ == s,
            (Err(e), Err(f)) => e == f,
            _ => false,
        },
{
    if !fits(data, offset, len) {
        return Err(NxError::OutOfBounds { offset, len });
    }
    let n = data.len();
    Ok(vstd::slice::slice_subrange(data, offset as usize, (offset + len) as usize))
}

} // verus!
