//! In-memory compression and decompression: one engine call at a time on
//! caller-supplied input and output buffers.
use vstd::prelude::*;

use crate::backend::{
    comp_flags_of, decompress_flush_code, deflate_next, deflate_out, deflate_reset,
    deflate_with_level, engine_level, flush_code, fresh_deflate, fresh_inflate, inflate_next,
    inflate_out, lemma_counter_delta, signed_window_bits, spec_compress_outcome,
    spec_decompress_outcome, Deflate, EngineResult, ErrorMessage, Inflate,
};
use miniz_oxide::deflate;
use miniz_oxide::inflate::stream::InflateState;
use crate::crc::add_mod64;
use crate::Compression;

verus! {

/// How far a 64-bit running counter moved from `before` to `after`,
/// counting modulo `2^64`.
pub open spec fn counter_delta(before: u64, after: u64) -> int {
    (after - before) % 0x1_0000_0000_0000_0000int
}

/// A flush directive passed to the compressor with every call.
#[derive(Clone, Copy, Debug, PartialEq, Eq, Structural)]
pub enum Flush {
    /// Accumulate freely; no output boundary is forced.
    NoFlush,
    /// Flush pending output; treated as `Sync` by this engine.
    Partial,
    /// Flush pending output and align it on a byte boundary.
    Sync,
    /// As `Sync`, and reset the dictionary so later data stands alone.
    Full,
    /// Emit a block boundary; this engine rejects it.
    Block,
    /// No more input will follow: drain to the end of the stream.
    Finish,
}

/// The flush directives of the compressor.
pub type FlushCompress = Flush;

/// A flush directive passed to the decompressor with every call.
#[derive(Clone, Copy, Debug, PartialEq, Eq, Structural)]
pub enum FlushDecompress {
    /// More input may follow.
    NoFlush,
    /// Flush as much output as possible.
    Sync,
    /// No more input will follow.
    Finish,
}

/// The outcome of a successful engine call.
#[derive(Clone, Copy, Debug, PartialEq, Eq, Structural)]
pub enum Status {
    /// Progress was made; more input or more output room may be needed.
    Progress,
    /// No progress was possible with the buffers given.
    BufError,
    /// The logical stream has ended.
    StreamEnd,
}

/// The input of a decompressor was not a valid stream.
#[derive(Clone, Copy, Debug)]
pub struct DataError {
    pub msg: ErrorMessage,
}

/// Errors of the decompressor.
#[derive(Clone, Copy, Debug)]
pub enum DecompressError {
    /// The input is corrupt.
    Data(DataError),
    /// A preset dictionary with this Adler-32 is needed.
    NeedsDictionary(u32),
}

/// Errors of the compressor.
#[derive(Clone, Copy, Debug)]
pub struct CompressError {
    pub msg: ErrorMessage,
}

impl DataError {
    /// The engine's message, where it gave one.
    pub fn message(&self) -> (r: Option<&str>)
        ensures
            r == self.msg.spec_get(),
    {
        self.msg.get()
    }
}

impl CompressError {
    /// The engine's message, where it gave one.
    pub fn message(&self) -> (r: Option<&str>)
        ensures
            r == self.msg.spec_get(),
    {
        self.msg.get()
    }
}

impl DecompressError {
    /// The Adler-32 of the dictionary that the stream asks for, if that is
    /// what stopped it.
    pub fn needs_dictionary(&self) -> (r: Option<u32>)
        ensures
            r == (match self {
                DecompressError::NeedsDictionary(id) => Some(*id),
                DecompressError::Data(_) => None::<u32>,
            }),
    {
        match self {
            DecompressError::NeedsDictionary(id) => Some(*id),
            DecompressError::Data(_) => None,
        }
    }
}

/// A raw in-memory compression stream.
pub struct Compress {
    inner: Deflate,
}

/// A raw in-memory decompression stream.
pub struct Decompress {
    inner: Inflate,
}

impl Compress {
    /// Bytes consumed so far, modulo `2^64`.
    pub closed spec fn spec_total_in(&self) -> u64 {
        self.inner.spec_total_in()
    }

    /// Bytes produced so far, modulo `2^64`.
    pub closed spec fn spec_total_out(&self) -> u64 {
        self.inner.spec_total_out()
    }

    /// The engine state.
    pub closed spec fn spec_engine(&self) -> deflate::core::CompressorOxide {
        self.inner.spec_engine()
    }

    /// What one engine call on `input`, with an output of `out_len` bytes
    /// and `flush`, returns from the current state.
    pub open spec fn spec_out(&self, input: Seq<u8>, out_len: nat, flush: Flush) -> EngineResult {
        deflate_out(self.spec_engine(), input, out_len, flush_code(flush))
    }

    /// `self` is `old` after one engine call on `input` with an output of
    /// `out_len` bytes and `flush`, of which `out` holds the front
    /// afterwards.
    pub open spec fn ran(
        &self,
        old: Compress,
        input: Seq<u8>,
        out_len: nat,
        flush: Flush,
        out: Seq<u8>,
    ) -> bool {
        let res = old.spec_out(input, out_len, flush);
        &&& self.spec_engine() == deflate_next(old.spec_engine(), input, out_len, flush_code(flush))
        &&& res.0 <= input.len()
        &&& res.1 <= out_len
        &&& res.1 == res.3.len()
        &&& out.len() >= res.1
        &&& out.subrange(0, res.1 as int) == res.3
        &&& self.spec_total_in() == add_mod64(old.spec_total_in(), res.0 as int)
        &&& self.spec_total_out() == add_mod64(old.spec_total_out(), res.1 as int)
    }

    /// No engine call was made and the totals are as they were.
    pub open spec fn unchanged(&self, old: Compress) -> bool {
        &&& self.spec_engine() == old.spec_engine()
        &&& self.spec_total_in() == old.spec_total_in()
        &&& self.spec_total_out() == old.spec_total_out()
    }

    /// A compressor at `level`, with a zlib header and trailer if
    /// `zlib_header`, as raw DEFLATE otherwise.
    pub fn new(level: Compression, zlib_header: bool) -> (r: Compress)
        ensures
            r.spec_total_in() == 0,
            r.spec_total_out() == 0,
            r.spec_engine() == fresh_deflate(
                comp_flags_of(engine_level(level), signed_window_bits(zlib_header, 15), 0),
            ),
    {
        Compress { inner: Deflate::make(level, zlib_header, 15) }
    }

    /// As `new`, with a window of `2^window_bits` bytes announced.
    pub fn new_with_window_bits(level: Compression, zlib_header: bool, window_bits: u8) -> (r:
        Compress)
        requires
            9 <= window_bits <= 15,
        ensures
            r.spec_total_in() == 0,
            r.spec_total_out() == 0,
            r.spec_engine() == fresh_deflate(
                comp_flags_of(engine_level(level), signed_window_bits(zlib_header, window_bits), 0),
            ),
    {
        Compress { inner: Deflate::make(level, zlib_header, window_bits) }
    }

    /// Bytes consumed so far.
    pub fn total_in(&self) -> (r: u64)
        ensures
            r == self.spec_total_in(),
    {
        self.inner.total_in()
    }

    /// Bytes produced so far.
    pub fn total_out(&self) -> (r: u64)
        ensures
            r == self.spec_total_out(),
    {
        self.inner.total_out()
    }

    /// Back to the state after construction, with the totals at zero.
    pub fn reset(&mut self)
        ensures
            final(self).spec_total_in() == 0,
            final(self).spec_total_out() == 0,
            final(self).spec_engine() == deflate_reset(old(self).spec_engine()),
    {
        self.inner.reset();
    }

    /// Changes the level for the data that follows.
    pub fn set_level(&mut self, level: Compression) -> (r: Result<(), CompressError>)
        ensures
            r is Ok,
            final(self).spec_total_in() == old(self).spec_total_in(),
            final(self).spec_total_out() == old(self).spec_total_out(),
            final(self).spec_engine() == deflate_with_level(
                old(self).spec_engine(),
                engine_level(level) as u8,
            ),
    {
        self.inner.set_level(level);
        Ok(())
    }

    /// Compresses as much of `input` into `output` as one engine call
    /// takes; the totals tell how much was consumed and produced.
    /// `Flush::Block` has no engine code: it fails and calls nothing.
    pub fn compress(&mut self, input: &[u8], output: &mut [u8], flush: FlushCompress) -> (r:
        Result<Status, CompressError>)
        ensures
            final(output)@.len() == old(output)@.len(),
            flush == Flush::Block ==> r is Err && final(self).unchanged(*old(self)),
            flush != Flush::Block ==> {
                &&& final(self).ran(*old(self), input@, old(output)@.len(), flush, final(output)@)
                &&& r == spec_compress_outcome(old(self).spec_out(input@, old(output)@.len(), flush).2)
            },
    {
        self.inner.compress(input, output, flush)
    }

    /// As `compress`, writing into the spare capacity of `output` and
    /// growing its length by the bytes produced, without reallocating.
    pub fn compress_vec(&mut self, input: &[u8], output: &mut Vec<u8>, flush: FlushCompress) -> (r:
        Result<Status, CompressError>)
        ensures
            flush == Flush::Block ==> r is Err && final(self).unchanged(*old(self)) && final(output)@
                == old(output)@,
            flush != Flush::Block ==> exists|spare: nat|
                #![trigger old(self).spec_out(input@, spare, flush)]
                {
                    let res = old(self).spec_out(input@, spare, flush);
                    &&& final(self).ran(
                        *old(self),
                        input@,
                        spare,
                        flush,
                        final(output)@.subrange(old(output)@.len() as int, final(output)@.len() as int),
                    )
                    &&& final(output)@ == old(output)@ + res.3
                    &&& r == spec_compress_outcome(res.2)
                },
    {
        let len = output.len();
        let cap = spare_capacity_end(output);
        let ghost old_out = output@;
        output.resize(cap, 0u8);
        let before = self.total_out();
        let r = {
            let (_, tail) = output.as_mut_slice().split_at_mut(len);
            let r = self.compress(input, tail, flush);
            r
        };
        if flush == Flush::Block {
            output.truncate(len);
            assert(output@ =~= old_out);
            return r;
        }
        let ghost res = old(self).spec_out(input@, (cap - len) as nat, flush);
        proof {
            lemma_counter_delta(old(self).spec_total_out(), res.1 as int);
        }
        let produced = self.total_out().wrapping_sub(before);
        output.truncate(len + produced as usize);
        assert(output@ =~= old_out + res.3);
        assert(output@.subrange(len as int, output@.len() as int) =~= res.3);
        assert(res.3.subrange(0, res.1 as int) =~= res.3);
        assert(self.ran(
            *old(self),
            input@,
            (cap - len) as nat,
            flush,
            output@.subrange(len as int, output@.len() as int),
        ));
        r
    }
}

/// Relies on `Vec::capacity`: the length up to which `v` grows without
/// reallocating, never below its length.
#[verifier::external_body]
fn spare_capacity_end(v: &Vec<u8>) -> (r: usize)
    ensures
        r >= v@.len(),
{
    v.capacity()
}

impl Decompress {
    /// Bytes consumed so far, modulo `2^64`.
    pub closed spec fn spec_total_in(&self) -> u64 {
        self.inner.spec_total_in()
    }

    /// Bytes produced so far, modulo `2^64`.
    pub closed spec fn spec_total_out(&self) -> u64 {
        self.inner.spec_total_out()
    }

    /// The engine state.
    pub closed spec fn spec_engine(&self) -> InflateState {
        self.inner.spec_engine()
    }

    /// What one engine call on `input`, with an output of `out_len` bytes
    /// and `flush`, returns from the current state.
    pub open spec fn spec_out(&self, input: Seq<u8>, out_len: nat, flush: FlushDecompress) -> EngineResult {
        inflate_out(self.spec_engine(), input, out_len, decompress_flush_code(flush))
    }

    /// `self` is `old` after one engine call on `input` with an output of
    /// `out_len` bytes and `flush`, of which `out` holds the front
    /// afterwards.
    pub open spec fn ran(
        &self,
        old: Decompress,
        input: Seq<u8>,
        out_len: nat,
        flush: FlushDecompress,
        out: Seq<u8>,
    ) -> bool {
        let res = old.spec_out(input, out_len, flush);
        &&& self.spec_engine() == inflate_next(
            old.spec_engine(),
            input,
            out_len,
            decompress_flush_code(flush),
        )
        &&& res.0 <= input.len()
        &&& res.1 <= out_len
        &&& res.1 == res.3.len()
        &&& out.len() >= res.1
        &&& out.subrange(0, res.1 as int) == res.3
        &&& self.spec_total_in() == add_mod64(old.spec_total_in(), res.0 as int)
        &&& self.spec_total_out() == add_mod64(old.spec_total_out(), res.1 as int)
    }

    /// A fresh decompressor with the totals at zero.
    pub open spec fn is_fresh(&self, zlib_header: bool) -> bool {
        &&& self.spec_total_in() == 0
        &&& self.spec_total_out() == 0
        &&& self.spec_engine() == fresh_inflate(zlib_header)
    }

    /// A decompressor for zlib-framed input if `zlib_header`, for raw
    /// DEFLATE otherwise.
    pub fn new(zlib_header: bool) -> (r: Decompress)
        ensures
            r.is_fresh(zlib_header),
    {
        Decompress { inner: Inflate::make(zlib_header, 15) }
    }

    /// As `new`, for streams with a window of `2^window_bits` bytes.
    pub fn new_with_window_bits(zlib_header: bool, window_bits: u8) -> (r: Decompress)
        requires
            9 <= window_bits <= 15,
        ensures
            r.is_fresh(zlib_header),
    {
        Decompress { inner: Inflate::make(zlib_header, window_bits) }
    }

    /// Bytes consumed so far.
    pub fn total_in(&self) -> (r: u64)
        ensures
            r == self.spec_total_in(),
    {
        self.inner.total_in()
    }

    /// Bytes produced so far.
    pub fn total_out(&self) -> (r: u64)
        ensures
            r == self.spec_total_out(),
    {
        self.inner.total_out()
    }

    /// Back to a fresh decompressor for zlib-framed (`zlib_header`) or raw
    /// input, with the totals at zero.
    pub fn reset(&mut self, zlib_header: bool)
        ensures
            final(self).is_fresh(zlib_header),
    {
        self.inner.reset(zlib_header);
    }

    /// Decompresses as much of `input` into `output` as one engine call
    /// takes; the totals tell how much was consumed and produced.
    pub fn decompress(&mut self, input: &[u8], output: &mut [u8], flush: FlushDecompress) -> (r:
        Result<Status, DecompressError>)
        ensures
            final(output)@.len() == old(output)@.len(),
            final(self).ran(*old(self), input@, old(output)@.len(), flush, final(output)@),
            r == spec_decompress_outcome(old(self).spec_out(input@, old(output)@.len(), flush).2),
    {
        self.inner.decompress(input, output, flush)
    }

    /// As `decompress`, writing into the spare capacity of `output` and
    /// growing its length by the bytes produced, without reallocating.
    pub fn decompress_vec(&mut self, input: &[u8], output: &mut Vec<u8>, flush: FlushDecompress) -> (r:
        Result<Status, DecompressError>)
        ensures
            exists|spare: nat|
                #![trigger old(self).spec_out(input@, spare, flush)]
                {
                    let res = old(self).spec_out(input@, spare, flush);
                    &&& final(self).ran(
                        *old(self),
                        input@,
                        spare,
                        flush,
                        final(output)@.subrange(old(output)@.len() as int, final(output)@.len() as int),
                    )
                    &&& final(output)@ == old(output)@ + res.3
                    &&& r == spec_decompress_outcome(res.2)
                },
    {
        let len = output.len();
        let cap = spare_capacity_end(output);
        let ghost old_out = output@;
        output.resize(cap, 0u8);
        let before = self.total_out();
        let r = {
            let (_, tail) = output.as_mut_slice().split_at_mut(len);
            let r = self.decompress(input, tail, flush);
            r
        };
        let ghost res = old(self).spec_out(input@, (cap - len) as nat, flush);
        proof {
            lemma_counter_delta(old(self).spec_total_out(), res.1 as int);
        }
        let produced = self.total_out().wrapping_sub(before);
        output.truncate(len + produced as usize);
        assert(output@ =~= old_out + res.3);
        assert(output@.subrange(len as int, output@.len() as int) =~= res.3);
        assert(res.3.subrange(0, res.1 as int) =~= res.3);
        assert(self.ran(
            *old(self),
            input@,
            (cap - len) as nat,
            flush,
            output@.subrange(len as int, output@.len() as int),
        ));
        r
    }
}

} // verus!
