//! The DEFLATE engine: `miniz_oxide`'s streaming compressor and
//! decompressor, with 64-bit running totals kept on this side.
use vstd::prelude::*;

use crate::crc::add_mod64;
use crate::mem::counter_delta;
use crate::mem::{CompressError, DataError, DecompressError, Flush, FlushDecompress, Status};
use crate::Compression;
use miniz_oxide::deflate;
use miniz_oxide::inflate::stream::InflateState;
use miniz_oxide::MZFlush;

verus! {

#[verifier::external_type_specification]
#[verifier::external_body]
pub struct ExInflateState(InflateState);

#[verifier::external_type_specification]
#[verifier::external_body]
pub struct ExCompressorOxide(deflate::core::CompressorOxide);

/// What a streaming engine call did: bytes consumed, bytes written, the
/// zlib-style return code, and the bytes written.
pub type EngineResult = (nat, nat, i32, Seq<u8>);

/// The state of a fresh decompressor for zlib-framed (`zlib`) or raw input.
pub uninterp spec fn fresh_inflate(zlib: bool) -> InflateState;

/// The decompressor state after one call on `input` with an output of
/// `out_len` bytes and flush code `flush`, from the state `s`.
pub uninterp spec fn inflate_next(s: InflateState, input: Seq<u8>, out_len: nat, flush: i32) -> InflateState;

/// What that call returns, from the state `s`: the engine is
/// deterministic, so this depends on nothing else.
pub uninterp spec fn inflate_out(s: InflateState, input: Seq<u8>, out_len: nat, flush: i32) -> (
    nat,
    nat,
    i32,
    Seq<u8>,
);

/// The state of a fresh compressor with `flags`.
pub uninterp spec fn fresh_deflate(flags: u32) -> deflate::core::CompressorOxide;

/// The compressor state after one call on `input` with an output of
/// `out_len` bytes and flush code `flush`, from the state `c`.
pub uninterp spec fn deflate_next(
    c: deflate::core::CompressorOxide,
    input: Seq<u8>,
    out_len: nat,
    flush: i32,
) -> deflate::core::CompressorOxide;

/// What that call returns, from the state `c`.
pub uninterp spec fn deflate_out(
    c: deflate::core::CompressorOxide,
    input: Seq<u8>,
    out_len: nat,
    flush: i32,
) -> (nat, nat, i32, Seq<u8>);

/// The compressor state after a reset, from the state `c`.
pub uninterp spec fn deflate_reset(c: deflate::core::CompressorOxide) -> deflate::core::CompressorOxide;

/// The compressor state after a change to `level`, from the state `c`.
pub uninterp spec fn deflate_with_level(c: deflate::core::CompressorOxide, level: u8) -> deflate::core::CompressorOxide;

/// The compressor flags for a level, a window (positive: zlib framing) and
/// a strategy.
pub uninterp spec fn comp_flags_of(level: i32, window_bits: i32, strategy: i32) -> u32;

/// What one engine call did: how many bytes it took from the input, how
/// many it wrote to the output, and its zlib-style return code.
pub struct EngineStep {
    pub consumed: usize,
    pub written: usize,
    pub code: i32,
}

/// The return codes that `miniz_oxide`'s `MZStatus` and `MZError` carry.
pub open spec fn is_engine_code(code: i32) -> bool {
    code == 0 || code == 1 || code == 2 || code == -1 || code == -2 || code == -3 || code == -4
        || code == -5 || code == -6 || code == -10000
}

/// An engine call reported `r` and wrote `out` to the front of its output,
/// as the engine's result `res` says.
pub open spec fn step_is(r: EngineStep, res: EngineResult, out: Seq<u8>, input_len: nat, out_len: nat) -> bool {
    &&& r.consumed == res.0
    &&& r.written == res.1
    &&& r.code == res.2
    &&& r.consumed <= input_len
    &&& r.written <= out_len
    &&& is_engine_code(r.code)
    &&& out.subrange(0, r.written as int) == res.3
}

/// Relies on `miniz_oxide::inflate::stream::InflateState::new_boxed_with_window_bits`:
/// a fresh decompressor, which keeps only whether it reads zlib framing
/// (positive `window_bits`) or raw DEFLATE.
#[verifier::external_body]
fn new_inflate_state(window_bits: i32) -> (r: Box<InflateState>)
    ensures
        *r == fresh_inflate(window_bits > 0),
{
    InflateState::new_boxed_with_window_bits(window_bits)
}

/// Relies on `miniz_oxide::inflate::stream::inflate`, with the flush code
/// turned into `MZFlush` by `MZFlush::new` (which takes codes 0 to 4): the
/// new state and what it reports are functions of the state before and of
/// the call's arguments, and the counts stay within the buffers.
#[verifier::external_body]
fn inflate_step(state: &mut Box<InflateState>, input: &[u8], output: &mut [u8], flush: i32) -> (r:
    EngineStep)
    requires
        0 <= flush <= 4,
    ensures
        **final(state) == inflate_next(**old(state), input@, old(output)@.len(), flush),
        step_is(
            r,
            inflate_out(**old(state), input@, old(output)@.len(), flush),
            final(output)@,
            input@.len(),
            old(output)@.len(),
        ),
        final(output)@.len() == old(output)@.len(),
{
    let flush = MZFlush::new(flush).unwrap();
    let res = miniz_oxide::inflate::stream::inflate(state, input, output, flush);
    let code = match res.status {
        Ok(s) => s as i32,
        Err(e) => e as i32,
    };
    EngineStep { consumed: res.bytes_consumed, written: res.bytes_written, code }
}

/// Relies on `miniz_oxide::deflate::core::create_comp_flags_from_zip_params`:
/// the compressor flags for a level, a window (positive: zlib framing) and
/// a strategy.
#[verifier::external_body]
fn compressor_flags(level: i32, window_bits: i32, strategy: i32) -> (r: u32)
    ensures
        r == comp_flags_of(level, window_bits, strategy),
{
    deflate::core::create_comp_flags_from_zip_params(level, window_bits, strategy)
}

/// Relies on `miniz_oxide::deflate::core::CompressorOxide::new`: a fresh
/// compressor with the given flags.
#[verifier::external_body]
fn new_compressor(flags: u32) -> (r: Box<deflate::core::CompressorOxide>)
    ensures
        *r == fresh_deflate(flags),
{
    Box::new(deflate::core::CompressorOxide::new(flags))
}

/// Relies on `miniz_oxide::deflate::core::CompressorOxide::reset`: the new
/// state is a function of the state before.
#[verifier::external_body]
fn compressor_reset(c: &mut Box<deflate::core::CompressorOxide>)
    ensures
        **final(c) == deflate_reset(**old(c)),
{
    c.reset()
}

/// Relies on `miniz_oxide::deflate::core::CompressorOxide::set_compression_level_raw`:
/// the new state is a function of the state before and of `level`.
#[verifier::external_body]
fn compressor_set_level(c: &mut Box<deflate::core::CompressorOxide>, level: u8)
    ensures
        **final(c) == deflate_with_level(**old(c), level),
{
    c.set_compression_level_raw(level)
}

/// Relies on `miniz_oxide::deflate::stream::deflate`, with the flush code
/// turned into `MZFlush` by `MZFlush::new` (which takes codes 0 to 4): the
/// new state and what it reports are functions of the state before and of
/// the call's arguments, and the counts stay within the buffers.
#[verifier::external_body]
fn deflate_step(
    c: &mut Box<deflate::core::CompressorOxide>,
    input: &[u8],
    output: &mut [u8],
    flush: i32,
) -> (r: EngineStep)
    requires
        0 <= flush <= 4,
    ensures
        **final(c) == deflate_next(**old(c), input@, old(output)@.len(), flush),
        step_is(
            r,
            deflate_out(**old(c), input@, old(output)@.len(), flush),
            final(output)@,
            input@.len(),
            old(output)@.len(),
        ),
        final(output)@.len() == old(output)@.len(),
{
    let flush = MZFlush::new(flush).unwrap();
    let res = miniz_oxide::deflate::stream::deflate(c, input, output, flush);
    let code = match res.status {
        Ok(s) => s as i32,
        Err(e) => e as i32,
    };
    EngineStep { consumed: res.bytes_consumed, written: res.bytes_written, code }
}

/// The message that zlib gives for an error code.
pub open spec fn spec_message(code: i32) -> Option<&'static str> {
    if code == 2 {
        Some("need dictionary")
    } else if code == -1 {
        Some("file error")
    } else if code == -2 {
        Some("stream error")
    } else if code == -3 {
        Some("data error")
    } else if code == -4 {
        Some("insufficient memory")
    } else if code == -5 {
        Some("buffer error")
    } else if code == -6 {
        Some("incompatible version")
    } else {
        None
    }
}

/// A message that describes an engine error, where one is known.
#[derive(Clone, Copy, Debug)]
pub struct ErrorMessage(Option<&'static str>);

impl ErrorMessage {
    pub closed spec fn spec_get(&self) -> Option<&'static str> {
        self.0
    }

    /// The message for an engine return code.
    pub fn for_code(code: i32) -> (r: ErrorMessage)
        ensures
            r.spec_get() == spec_message(code),
    {
        if code == 2 {
            ErrorMessage(Some("need dictionary"))
        } else if code == -1 {
            ErrorMessage(Some("file error"))
        } else if code == -2 {
            ErrorMessage(Some("stream error"))
        } else if code == -3 {
            ErrorMessage(Some("data error"))
        } else if code == -4 {
            ErrorMessage(Some("insufficient memory"))
        } else if code == -5 {
            ErrorMessage(Some("buffer error"))
        } else if code == -6 {
            ErrorMessage(Some("incompatible version"))
        } else {
            ErrorMessage(None)
        }
    }

    /// The message, if there is one.
    pub fn get(&self) -> (r: Option<&str>)
        ensures
            r == self.spec_get(),
    {
        self.0
    }
}

/// How a compressor call ends, from its engine code.
pub closed spec fn spec_compress_outcome(code: i32) -> Result<Status, CompressError> {
    if code == 0 {
        Ok(Status::Progress)
    } else if code == 1 {
        Ok(Status::StreamEnd)
    } else if code == -5 {
        Ok(Status::BufError)
    } else {
        Err(CompressError { msg: ErrorMessage(spec_message(code)) })
    }
}

/// How a decompressor call ends, from its engine code.
pub closed spec fn spec_decompress_outcome(code: i32) -> Result<Status, DecompressError> {
    if code == 0 {
        Ok(Status::Progress)
    } else if code == 1 {
        Ok(Status::StreamEnd)
    } else if code == -5 {
        Ok(Status::BufError)
    } else {
        Err(DecompressError::Data(DataError { msg: ErrorMessage(spec_message(code)) }))
    }
}

/// The stream-layer error for a decompressor error.
pub closed spec fn data_error_of(e: DecompressError) -> DataError {
    match e {
        DecompressError::Data(d) => d,
        DecompressError::NeedsDictionary(_) => DataError { msg: ErrorMessage(spec_message(2)) },
    }
}

/// The stream-layer error for a decompressor error.
pub fn data_error(e: DecompressError) -> (r: DataError)
    ensures
        r == data_error_of(e),
{
    match e {
        DecompressError::Data(d) => d,
        DecompressError::NeedsDictionary(_) => DataError { msg: ErrorMessage::for_code(2) },
    }
}

/// The window size, with its sign selecting zlib framing (positive) or raw
/// DEFLATE (negative).
pub open spec fn signed_window_bits(zlib_header: bool, window_bits: u8) -> i32 {
    if zlib_header {
        window_bits as i32
    } else {
        (0 - window_bits) as i32
    }
}

fn window_arg(zlib_header: bool, window_bits: u8) -> (r: i32)
    ensures
        r == signed_window_bits(zlib_header, window_bits),
{
    if zlib_header {
        window_bits as i32
    } else {
        -(window_bits as i32)
    }
}

/// The engine's level for a compression level: levels above the best the
/// engine has (10) are taken as 10.
pub open spec fn engine_level(level: Compression) -> i32 {
    if level.spec_level() <= 10 {
        level.spec_level() as i32
    } else {
        10
    }
}

fn level_arg(level: Compression) -> (r: i32)
    ensures
        r == engine_level(level),
{
    if level.level() <= 10 {
        level.level() as i32
    } else {
        10
    }
}

/// The engine's code for a compressor flush directive (`Block` has none).
pub open spec fn flush_code(flush: Flush) -> i32 {
    match flush {
        Flush::NoFlush => 0,
        Flush::Partial => 1,
        Flush::Sync => 2,
        Flush::Full => 3,
        Flush::Finish => 4,
        Flush::Block => 5,
    }
}

/// The engine's code for a decompressor flush directive.
pub open spec fn decompress_flush_code(flush: FlushDecompress) -> i32 {
    match flush {
        FlushDecompress::NoFlush => 0,
        FlushDecompress::Sync => 2,
        FlushDecompress::Finish => 4,
    }
}

/// Decompression state with running totals of the bytes it consumed and
/// produced.
pub struct Inflate {
    inner: Box<InflateState>,
    total_in: u64,
    total_out: u64,
}

impl Inflate {
    pub closed spec fn spec_total_in(&self) -> u64 {
        self.total_in
    }

    pub closed spec fn spec_total_out(&self) -> u64 {
        self.total_out
    }

    /// The engine state.
    pub closed spec fn spec_engine(&self) -> InflateState {
        *self.inner
    }

    /// A fresh decompressor for zlib-framed (`zlib_header`) or raw DEFLATE
    /// input.
    pub fn make(zlib_header: bool, window_bits: u8) -> (r: Inflate)
        requires
            9 <= window_bits <= 15,
        ensures
            r.spec_total_in() == 0,
            r.spec_total_out() == 0,
            r.spec_engine() == fresh_inflate(zlib_header),
    {
        Inflate {
            inner: new_inflate_state(window_arg(zlib_header, window_bits)),
            total_in: 0,
            total_out: 0,
        }
    }

    pub fn total_in(&self) -> (r: u64)
        ensures
            r == self.spec_total_in(),
    {
        self.total_in
    }

    pub fn total_out(&self) -> (r: u64)
        ensures
            r == self.spec_total_out(),
    {
        self.total_out
    }

    /// Decompresses as much of `input` into `output` as the engine takes in
    /// one call.
    pub fn decompress(&mut self, input: &[u8], output: &mut [u8], flush: FlushDecompress) -> (r:
        Result<Status, DecompressError>)
        ensures
            ({
                let code = decompress_flush_code(flush);
                let res = inflate_out(old(self).spec_engine(), input@, old(output)@.len(), code);
                &&& final(self).spec_engine() == inflate_next(
                    old(self).spec_engine(),
                    input@,
                    old(output)@.len(),
                    code,
                )
                &&& res.0 <= input@.len()
                &&& res.1 <= old(output)@.len()
                &&& final(output)@.subrange(0, res.1 as int) == res.3
                &&& final(self).spec_total_in() == add_mod64(old(self).spec_total_in(), res.0 as int)
                &&& final(self).spec_total_out() == add_mod64(old(self).spec_total_out(), res.1 as int)
                &&& r == spec_decompress_outcome(res.2)
            }),
            final(output)@.len() == old(output)@.len(),
    {
        let code: i32 = match flush {
            FlushDecompress::NoFlush => 0,
            FlushDecompress::Sync => 2,
            FlushDecompress::Finish => 4,
        };
        let step = inflate_step(&mut self.inner, input, output, code);
        self.total_in = self.total_in.wrapping_add(step.consumed as u64);
        self.total_out = self.total_out.wrapping_add(step.written as u64);
        outcome_decompress(step.code)
    }

    /// Back to a fresh decompressor, for zlib-framed (`zlib_header`) or raw
    /// input; the totals start again from zero.
    pub fn reset(&mut self, zlib_header: bool)
        ensures
            final(self).spec_total_in() == 0,
            final(self).spec_total_out() == 0,
            final(self).spec_engine() == fresh_inflate(zlib_header),
    {
        self.inner = new_inflate_state(window_arg(zlib_header, 15));
        self.total_in = 0;
        self.total_out = 0;
    }
}

fn outcome_decompress(code: i32) -> (r: Result<Status, DecompressError>)
    ensures
        r == spec_decompress_outcome(code),
{
    if code == 0 {
        Ok(Status::Progress)
    } else if code == 1 {
        Ok(Status::StreamEnd)
    } else if code == -5 {
        Ok(Status::BufError)
    } else {
        Err(DecompressError::Data(DataError { msg: ErrorMessage::for_code(code) }))
    }
}

fn outcome_compress(code: i32) -> (r: Result<Status, CompressError>)
    ensures
        r == spec_compress_outcome(code),
{
    if code == 0 {
        Ok(Status::Progress)
    } else if code == 1 {
        Ok(Status::StreamEnd)
    } else if code == -5 {
        Ok(Status::BufError)
    } else {
        Err(CompressError { msg: ErrorMessage::for_code(code) })
    }
}

/// `(a + n) mod 2^64` is `n` ahead of `a` on a 64-bit counter.
pub proof fn lemma_counter_delta(a: u64, n: int)
    requires
        0 <= n < 0x1_0000_0000_0000_0000,
    ensures
        counter_delta(a, ((a + n) % 0x1_0000_0000_0000_0000int) as u64) == n,
{
    let m = 0x1_0000_0000_0000_0000int;
    let b = (a + n) % m;
    if a + n < m {
        assert(b == a + n) by (nonlinear_arith)
            requires
                0 <= a + n < m,
                b == (a + n) % m,
        ;
    } else {
        assert(b == a + n - m) by (nonlinear_arith)
            requires
                m <= a + n < 2 * m,
                b == (a + n) % m,
        ;
        assert((b - a) % m == n) by (nonlinear_arith)
            requires
                b - a == n - m,
                0 <= n < m,
        ;
    }
}

/// Compression state with running totals of the bytes it consumed and
/// produced.
pub struct Deflate {
    inner: Box<deflate::core::CompressorOxide>,
    total_in: u64,
    total_out: u64,
}

impl Deflate {
    pub closed spec fn spec_total_in(&self) -> u64 {
        self.total_in
    }

    pub closed spec fn spec_total_out(&self) -> u64 {
        self.total_out
    }

    /// The engine state.
    pub closed spec fn spec_engine(&self) -> deflate::core::CompressorOxide {
        *self.inner
    }

    /// A fresh compressor at `level`, writing zlib-framed (`zlib_header`)
    /// or raw DEFLATE output.
    pub fn make(level: Compression, zlib_header: bool, window_bits: u8) -> (r: Deflate)
        requires
            9 <= window_bits <= 15,
        ensures
            r.spec_total_in() == 0,
            r.spec_total_out() == 0,
            r.spec_engine() == fresh_deflate(
                comp_flags_of(engine_level(level), signed_window_bits(zlib_header, window_bits), 0),
            ),
    {
        let flags = compressor_flags(level_arg(level), window_arg(zlib_header, window_bits), 0);
        Deflate { inner: new_compressor(flags), total_in: 0, total_out: 0 }
    }

    pub fn total_in(&self) -> (r: u64)
        ensures
            r == self.spec_total_in(),
    {
        self.total_in
    }

    pub fn total_out(&self) -> (r: u64)
        ensures
            r == self.spec_total_out(),
    {
        self.total_out
    }

    /// Compresses as much of `input` into `output` as the engine takes in
    /// one call. `Flush::Block` has no engine code: the call fails with a
    /// parameter error and the engine is not called.
    pub fn compress(&mut self, input: &[u8], output: &mut [u8], flush: Flush) -> (r: Result<
        Status,
        CompressError,
    >)
        ensures
            final(output)@.len() == old(output)@.len(),
            flush == Flush::Block ==> {
                &&& r == spec_compress_outcome(-10000i32)
                &&& r is Err
                &&& final(self).spec_engine() == old(self).spec_engine()
                &&& final(self).spec_total_in() == old(self).spec_total_in()
                &&& final(self).spec_total_out() == old(self).spec_total_out()
            },
            flush != Flush::Block ==> ({
                let code = flush_code(flush);
                let res = deflate_out(old(self).spec_engine(), input@, old(output)@.len(), code);
                &&& final(self).spec_engine() == deflate_next(
                    old(self).spec_engine(),
                    input@,
                    old(output)@.len(),
                    code,
                )
                &&& res.0 <= input@.len()
                &&& res.1 <= old(output)@.len()
                &&& final(output)@.subrange(0, res.1 as int) == res.3
                &&& final(self).spec_total_in() == add_mod64(old(self).spec_total_in(), res.0 as int)
                &&& final(self).spec_total_out() == add_mod64(old(self).spec_total_out(), res.1 as int)
                &&& r == spec_compress_outcome(res.2)
            }),
    {
        let code: i32 = match flush {
            Flush::NoFlush => 0,
            Flush::Partial => 1,
            Flush::Sync => 2,
            Flush::Full => 3,
            Flush::Finish => 4,
            Flush::Block => {
                return outcome_compress(-10000);
            },
        };
        let step = deflate_step(&mut self.inner, input, output, code);
        self.total_in = self.total_in.wrapping_add(step.consumed as u64);
        self.total_out = self.total_out.wrapping_add(step.written as u64);
        outcome_compress(step.code)
    }

    /// Back to the state of a fresh compressor with the same parameters;
    /// the totals start again from zero.
    pub fn reset(&mut self)
        ensures
            final(self).spec_total_in() == 0,
            final(self).spec_total_out() == 0,
            final(self).spec_engine() == deflate_reset(old(self).spec_engine()),
    {
        compressor_reset(&mut self.inner);
        self.total_in = 0;
        self.total_out = 0;
    }

    /// Changes the level used for the data that follows; levels above 10
    /// are taken as 10.
    pub fn set_level(&mut self, level: Compression)
        ensures
            final(self).spec_total_in() == old(self).spec_total_in(),
            final(self).spec_total_out() == old(self).spec_total_out(),
            final(self).spec_engine() == deflate_with_level(
                old(self).spec_engine(),
                engine_level(level) as u8,
            ),
    {
        let lvl = level_arg(level);
        compressor_set_level(&mut self.inner, lvl as u8);
    }
}

} // verus!
