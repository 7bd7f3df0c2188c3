//! CRC-32 checksums of byte streams, as gzip uses them.
use vstd::prelude::*;

verus! {

/// The IEEE CRC-32 of `data`, continuing from the checksum `start` of the
/// bytes that came before it (`start == 0` for a fresh stream).
pub uninterp spec fn crc32_of(start: u32, data: Seq<u8>) -> u32;

/// The CRC-32 of a stream `a || b`, given the checksum `crc1` of `a`, the
/// checksum `crc2` of `b` and the length `len2` of `b`.
pub uninterp spec fn crc32_combine_of(crc1: u32, crc2: u32, len2: u64) -> u32;

/// Relies on `zlib_rs::crc32`: the running CRC-32 of `start` extended with
/// the bytes of `buf`. A pure function of its arguments.
#[verifier::external_body]
fn crc32_update(start: u32, buf: &[u8]) -> (r: u32)
    ensures
        r == crc32_of(start, buf@),
{
    zlib_rs::crc32(start, buf)
}

/// Relies on `zlib_rs::crc32_combine`: the checksum of two concatenated
/// streams from the checksums of each and the length of the second.
#[verifier::external_body]
fn crc32_join(crc1: u32, crc2: u32, len2: u64) -> (r: u32)
    ensures
        r == crc32_combine_of(crc1, crc2, len2),
{
    zlib_rs::crc32_combine(crc1, crc2, len2)
}

/// The running CRC-32 of a byte stream, together with the number of bytes
/// that went into it.
#[derive(Debug)]
pub struct Crc {
    crc: u32,
    amt: u64,
}

/// `a + b`, reduced modulo `2^64`.
pub open spec fn add_mod64(a: u64, b: int) -> u64 {
    ((a + b) % 0x1_0000_0000_0000_0000int) as u64
}

impl Crc {
    /// The checksum of the bytes seen so far.
    pub closed spec fn crc_value(&self) -> u32 {
        self.crc
    }

    /// The number of bytes seen so far, modulo `2^64`.
    pub closed spec fn byte_count(&self) -> u64 {
        self.amt
    }

    /// A checksum over no bytes at all.
    pub fn new() -> (r: Crc)
        ensures
            r.crc_value() == 0,
            r.byte_count() == 0,
    {
        Crc { crc: 0, amt: 0 }
    }

    /// The current checksum.
    pub fn sum(&self) -> (r: u32)
        ensures
            r == self.crc_value(),
    {
        self.crc
    }

    /// The number of bytes seen so far, modulo `2^32`.
    pub fn amount(&self) -> (r: u32)
        ensures
            r == self.byte_count() % 0x1_0000_0000,
    {
        (self.amt % 0x1_0000_0000) as u32
    }

    /// Extends the checksum with `data`.
    pub fn update(&mut self, data: &[u8])
        ensures
            final(self).crc_value() == crc32_of(old(self).crc_value(), data@),
            final(self).byte_count() == add_mod64(old(self).byte_count(), data@.len() as int),
    {
        self.amt = self.amt.wrapping_add(data.len() as u64);
        self.crc = crc32_update(self.crc, data);
    }

    /// Forgets every byte seen so far.
    pub fn reset(&mut self)
        ensures
            final(self).crc_value() == 0,
            final(self).byte_count() == 0,
    {
        self.crc = 0;
        self.amt = 0;
    }

    /// Extends this checksum with the stream that `other` was computed over,
    /// as if those bytes had followed the bytes of `self`.
    pub fn combine(&mut self, other: &Crc)
        ensures
            final(self).crc_value() == crc32_combine_of(
                old(self).crc_value(),
                other.crc_value(),
                other.byte_count(),
            ),
            final(self).byte_count() == add_mod64(old(self).byte_count(), other.byte_count() as int),
    {
        self.crc = crc32_join(self.crc, other.crc, other.amt);
        self.amt = self.amt.wrapping_add(other.amt);
    }
}

} // verus!
