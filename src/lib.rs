//! Streaming DEFLATE, zlib and gzip compression and decompression.
use vstd::prelude::*;

pub mod backend;
pub mod error;
pub mod gzip;
pub mod header;
pub mod crc;
pub mod mem;
pub mod zio;

pub use crate::crc::Crc;
pub use crate::header::{GzBuilder, GzHeader};
pub use crate::mem::{
    Compress, CompressError, DataError, Decompress, DecompressError, Flush, FlushCompress,
    FlushDecompress, Status,
};

verus! {

/// A compression level: 0 stores, 1 is fastest, 9 is best, 6 is the
/// default; the engine also takes 10.
#[derive(Clone, Copy, Debug, PartialEq, Eq, Structural)]
pub struct Compression(u32);

impl Compression {
    pub closed spec fn spec_level(&self) -> u32 {
        self.0
    }

    /// The level `level`.
    pub fn new(level: u32) -> (r: Compression)
        ensures
            r.spec_level() == level,
    {
        Compression(level)
    }

    /// No compression at all.
    pub fn none() -> (r: Compression)
        ensures
            r.spec_level() == 0,
    {
        Compression(0)
    }

    /// The fastest compression.
    pub fn fast() -> (r: Compression)
        ensures
            r.spec_level() == 1,
    {
        Compression(1)
    }

    /// The smallest output.
    pub fn best() -> (r: Compression)
        ensures
            r.spec_level() == 9,
    {
        Compression(9)
    }

    /// The level as an integer.
    pub fn level(&self) -> (r: u32)
        ensures
            r == self.spec_level(),
    {
        self.0
    }
}

impl Default for Compression {
    fn default() -> (r: Compression)
        ensures
            r.spec_level() == 6,
    {
        Compression(6)
    }
}

} // verus!
