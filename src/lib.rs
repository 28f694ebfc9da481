//! A reader for NX (PKG4) asset archives: a single read-only file holding a
//! tree of typed values that callers navigate by name.

pub mod archive;
pub mod bytes;
pub mod error;
pub mod order;
pub mod value;
pub mod laws;
pub mod assets;
