use vstd::prelude::*;

verus! {

/// What can go wrong while opening or reading an archive.
#[derive(Clone, Copy, Debug, PartialEq, Eq, Structural)]
pub enum NxError {
    /// The file could not be opened or mapped.
    Io,
    /// The first four bytes are not the archive signature.
    InvalidMagicBytes,
    /// A read of `len` bytes at `offset` would pass the end of the buffer.
    OutOfBounds { offset: u64, len: u64 },
    /// A byte range could not be taken as a fixed-size integer.
    InvalidCast,
    /// The bytes of a string are not valid UTF-8.
    InvalidString,
    /// A table index lies outside the count that the header declares.
    CorruptTable,
    /// A bitmap's pixel data did not decompress to its stated size.
    DecompressionFailed,
}

} // verus!
