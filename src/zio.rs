//! The decisions of the stream adapters, apart from the I/O they drive:
//! one codec call per step, and what the adapter does next.
use vstd::prelude::*;

use crate::backend::{
    data_error, data_error_of, decompress_flush_code, deflate_next, deflate_out, flush_code,
    inflate_next, inflate_out, lemma_counter_delta, spec_compress_outcome,
    spec_decompress_outcome, EngineResult,
};
use crate::crc::add_mod64;
use crate::mem::{
    Compress, CompressError, DataError, Decompress, DecompressError, Flush,
    FlushDecompress, Status,
};

verus! {

/// The flush directives that the adapters pass to a codec.
pub open spec fn is_stream_flush(flush: Flush) -> bool {
    flush == Flush::NoFlush || flush == Flush::Sync || flush == Flush::Finish
}

/// A codec direction that the adapters can drive: a compressor or a
/// decompressor.
pub trait Ops: Sized {
    /// Bytes consumed so far, modulo `2^64`.
    spec fn ops_total_in(&self) -> u64;

    /// Bytes produced so far, modulo `2^64`.
    spec fn ops_total_out(&self) -> u64;

    /// What one engine call on `input`, with an output of `out_len` bytes
    /// and `flush`, returns from the current state.
    spec fn ops_out(&self, input: Seq<u8>, out_len: nat, flush: Flush) -> EngineResult;

    /// The engine state of `self` is that of `before` after such a call.
    spec fn ops_stepped(&self, before: Self, input: Seq<u8>, out_len: nat, flush: Flush) -> bool;

    /// How a call that returned `code` ends.
    spec fn ops_status_of(&self, code: i32) -> Result<Status, DataError>;

    fn total_in(&self) -> (r: u64)
        ensures
            r == self.ops_total_in(),
    ;

    fn total_out(&self) -> (r: u64)
        ensures
            r == self.ops_total_out(),
    ;

    /// One codec call from `input` into `output`.
    fn run(&mut self, input: &[u8], output: &mut [u8], flush: Flush) -> (r: Result<
        Status,
        DataError,
    >)
        requires
            is_stream_flush(flush),
        ensures
            final(output)@.len() == old(output)@.len(),
            final(self).ops_stepped(*old(self), input@, old(output)@.len(), flush),
            ({
                let res = old(self).ops_out(input@, old(output)@.len(), flush);
                &&& res.0 <= input@.len()
                &&& res.1 <= old(output)@.len()
                &&& res.1 == res.3.len()
                &&& final(output)@.subrange(0, res.1 as int) == res.3
                &&& final(self).ops_total_in() == add_mod64(old(self).ops_total_in(), res.0 as int)
                &&& final(self).ops_total_out() == add_mod64(old(self).ops_total_out(), res.1 as int)
                &&& r == old(self).ops_status_of(res.2)
            }),
    ;
}

/// `d1` is `d0` after one engine call on `input` with `flush` and an output
/// of `out_len` bytes, of which `out` holds the front afterwards.
pub open spec fn ops_ran<D: Ops>(
    d1: D,
    d0: D,
    input: Seq<u8>,
    out_len: nat,
    flush: Flush,
    out: Seq<u8>,
) -> bool {
    let res = d0.ops_out(input, out_len, flush);
    &&& d1.ops_stepped(d0, input, out_len, flush)
    &&& res.0 <= input.len()
    &&& res.1 <= out_len
    &&& res.1 == res.3.len()
    &&& out.len() >= res.1
    &&& out.subrange(0, res.1 as int) == res.3
    &&& d1.ops_total_in() == add_mod64(d0.ops_total_in(), res.0 as int)
    &&& d1.ops_total_out() == add_mod64(d0.ops_total_out(), res.1 as int)
}

/// How one engine call from `d` on `input`, with an output of `out_len`
/// bytes and `flush`, ends.
pub open spec fn ops_result<D: Ops>(d: D, input: Seq<u8>, out_len: nat, flush: Flush) -> Result<
    Status,
    DataError,
> {
    d.ops_status_of(d.ops_out(input, out_len, flush).2)
}

pub open spec fn compress_result_of(r: Result<Status, CompressError>) -> Result<Status, DataError> {
    match r {
        Ok(s) => Ok(s),
        Err(e) => Err(DataError { msg: e.msg }),
    }
}

pub open spec fn decompress_result_of(r: Result<Status, DecompressError>) -> Result<
    Status,
    DataError,
> {
    match r {
        Ok(s) => Ok(s),
        Err(e) => Err(data_error_of(e)),
    }
}

fn compress_result(r: Result<Status, CompressError>) -> (out: Result<Status, DataError>)
    ensures
        out == compress_result_of(r),
{
    match r {
        Ok(s) => Ok(s),
        Err(e) => Err(DataError { msg: e.msg }),
    }
}

fn decompress_result(r: Result<Status, DecompressError>) -> (out: Result<Status, DataError>)
    ensures
        out == decompress_result_of(r),
{
    match r {
        Ok(s) => Ok(s),
        Err(e) => Err(data_error(e)),
    }
}

/// The decompressor's directive for a stream flush directive.
pub open spec fn spec_decompress_flush(flush: Flush) -> FlushDecompress {
    match flush {
        Flush::Sync => FlushDecompress::Sync,
        Flush::Finish => FlushDecompress::Finish,
        _ => FlushDecompress::NoFlush,
    }
}

fn decompress_flush(flush: Flush) -> (r: FlushDecompress)
    requires
        is_stream_flush(flush),
    ensures
        r == spec_decompress_flush(flush),
        decompress_flush_code(r) == flush_code(flush),
{
    match flush {
        Flush::Sync => FlushDecompress::Sync,
        Flush::Finish => FlushDecompress::Finish,
        _ => FlushDecompress::NoFlush,
    }
}

impl Ops for Compress {
    open spec fn ops_total_in(&self) -> u64 {
        self.spec_total_in()
    }

    open spec fn ops_total_out(&self) -> u64 {
        self.spec_total_out()
    }

    open spec fn ops_out(&self, input: Seq<u8>, out_len: nat, flush: Flush) -> EngineResult {
        deflate_out(self.spec_engine(), input, out_len, flush_code(flush))
    }

    open spec fn ops_stepped(&self, before: Self, input: Seq<u8>, out_len: nat, flush: Flush) -> bool {
        self.spec_engine() == deflate_next(before.spec_engine(), input, out_len, flush_code(flush))
    }

    open spec fn ops_status_of(&self, code: i32) -> Result<Status, DataError> {
        compress_result_of(spec_compress_outcome(code))
    }

    fn total_in(&self) -> (r: u64) {
        Compress::total_in(self)
    }

    fn total_out(&self) -> (r: u64) {
        Compress::total_out(self)
    }

    fn run(&mut self, input: &[u8], output: &mut [u8], flush: Flush) -> (r: Result<Status, DataError>) {
        compress_result(self.compress(input, output, flush))
    }
}

impl Ops for Decompress {
    open spec fn ops_total_in(&self) -> u64 {
        self.spec_total_in()
    }

    open spec fn ops_total_out(&self) -> u64 {
        self.spec_total_out()
    }

    open spec fn ops_out(&self, input: Seq<u8>, out_len: nat, flush: Flush) -> EngineResult {
        inflate_out(self.spec_engine(), input, out_len, flush_code(flush))
    }

    open spec fn ops_stepped(&self, before: Self, input: Seq<u8>, out_len: nat, flush: Flush) -> bool {
        self.spec_engine() == inflate_next(before.spec_engine(), input, out_len, flush_code(flush))
    }

    open spec fn ops_status_of(&self, code: i32) -> Result<Status, DataError> {
        decompress_result_of(spec_decompress_outcome(code))
    }

    fn total_in(&self) -> (r: u64) {
        Decompress::total_in(self)
    }

    fn total_out(&self) -> (r: u64) {
        Decompress::total_out(self)
    }

    fn run(&mut self, input: &[u8], output: &mut [u8], flush: Flush) -> (r: Result<Status, DataError>) {
        decompress_result(self.decompress(input, output, decompress_flush(flush)))
    }
}

/// What a read-driven adapter does after one codec call.
#[derive(Clone, Copy, Debug, PartialEq, Eq, Structural)]
pub enum ReadAction {
    /// Nothing was produced yet the source has more: ask it again, since
    /// returning 0 would signal the end of the stream.
    Retry,
    /// Return this many bytes to the caller (0 at the end of the stream).
    Done(usize),
    /// The codec rejected its input.
    Corrupt,
}

/// One step of a read-driven adapter.
pub struct ReadStep {
    /// Bytes of the source's buffer that the codec consumed.
    pub consumed: usize,
    /// Bytes written to the front of the caller's buffer.
    pub produced: usize,
    /// The codec's result.
    pub status: Result<Status, DataError>,
    pub action: ReadAction,
}

/// The flush directive of a read-driven adapter: `Finish` once the source
/// is at its end, `NoFlush` before.
pub open spec fn read_flush(eof: bool) -> Flush {
    if eof {
        Flush::Finish
    } else {
        Flush::NoFlush
    }
}

/// What a read-driven adapter does after a codec call with `status` that
/// produced `produced` bytes, with the source at its end (`eof`) or not,
/// for a caller's buffer of `dst_len` bytes.
pub open spec fn spec_read_action(
    status: Result<Status, DataError>,
    produced: usize,
    eof: bool,
    dst_len: nat,
) -> ReadAction {
    match status {
        Err(_) => ReadAction::Corrupt,
        Ok(Status::StreamEnd) => ReadAction::Done(produced),
        Ok(_) => if produced == 0 && !eof && dst_len > 0 {
            ReadAction::Retry
        } else {
            ReadAction::Done(produced)
        },
    }
}

/// Decides what a read-driven adapter does after a codec call.
pub fn read_action(status: &Result<Status, DataError>, produced: usize, eof: bool, dst_len: usize) -> (r:
    ReadAction)
    ensures
        r == spec_read_action(*status, produced, eof, dst_len as nat),
{
    match status {
        Err(_) => ReadAction::Corrupt,
        Ok(Status::StreamEnd) => ReadAction::Done(produced),
        Ok(_) => if produced == 0 && !eof && dst_len > 0 {
            ReadAction::Retry
        } else {
            ReadAction::Done(produced)
        },
    }
}

/// One step of a read-driven adapter: the codec runs once on `input` (the
/// source's buffered bytes; empty at its end) into `dst`, and the step
/// reports what it consumed and produced and what the adapter does next.
pub fn read<D: Ops>(data: &mut D, input: &[u8], dst: &mut [u8]) -> (r: ReadStep)
    ensures
        final(dst)@.len() == old(dst)@.len(),
        ops_ran(
            *final(data),
            *old(data),
            input@,
            old(dst)@.len(),
            read_flush(input@.len() == 0),
            final(dst)@,
        ),
        r.consumed == old(data).ops_out(input@, old(dst)@.len(), read_flush(input@.len() == 0)).0,
        r.produced == old(data).ops_out(input@, old(dst)@.len(), read_flush(input@.len() == 0)).1,
        r.status == ops_result(*old(data), input@, old(dst)@.len(), read_flush(input@.len() == 0)),
        r.action == spec_read_action(r.status, r.produced, input@.len() == 0, old(dst)@.len()),
{
    let eof = input.len() == 0;
    let flush = if eof {
        Flush::Finish
    } else {
        Flush::NoFlush
    };
    let before_out = data.total_out();
    let before_in = data.total_in();
    let dst_len = dst.len();
    let status = data.run(input, dst, flush);
    proof {
        let res = old(data).ops_out(input@, dst_len as nat, flush);
        lemma_counter_delta(old(data).ops_total_out(), res.1 as int);
        lemma_counter_delta(old(data).ops_total_in(), res.0 as int);
    }
    let produced = data.total_out().wrapping_sub(before_out) as usize;
    let consumed = data.total_in().wrapping_sub(before_in) as usize;
    let action = read_action(&status, produced, eof, dst_len);
    ReadStep { consumed, produced, status, action }
}

/// The size of a write-driven adapter's output buffer.
pub const BUFFER_SIZE: usize = 32 * 1024;

/// What a write-driven adapter does after one codec call.
#[derive(Clone, Copy, Debug, PartialEq, Eq, Structural)]
pub enum WriteAction {
    /// The codec took nothing from a non-empty input although it
    /// succeeded: write out the buffer and try again, since reporting 0
    /// bytes written would fail the caller's `write_all`.
    Retry,
    /// Report this many bytes of the input as written.
    Done(usize),
    /// The codec rejected its input.
    Corrupt,
}

/// What a write-driven adapter does after a codec call with `status` that
/// took `written` bytes of an input of `input_len` bytes.
pub open spec fn spec_write_action(
    status: Result<Status, DataError>,
    written: usize,
    input_len: nat,
) -> WriteAction {
    match status {
        Err(_) => WriteAction::Corrupt,
        Ok(Status::StreamEnd) => WriteAction::Done(written),
        Ok(_) => if input_len > 0 && written == 0 {
            WriteAction::Retry
        } else {
            WriteAction::Done(written)
        },
    }
}

/// The state of a write-driven adapter: the sink, the codec, and the codec
/// output that has not been written to the sink yet.
pub struct Writer<W, D> {
    obj: Option<W>,
    data: D,
    buf: Vec<u8>,
    filled: usize,
}

impl<W, D: Ops> Writer<W, D> {
    /// The sink, while the adapter holds it.
    pub closed spec fn sink(&self) -> Option<W> {
        self.obj
    }

    /// The codec.
    pub closed spec fn codec(&self) -> D {
        self.data
    }

    /// Codec output that is still to be written to the sink.
    pub closed spec fn spec_pending(&self) -> Seq<u8> {
        self.buf@.subrange(0, self.pending_len())
    }

    closed spec fn pending_len(&self) -> int {
        if self.filled <= self.buf@.len() {
            self.filled as int
        } else {
            self.buf@.len() as int
        }
    }

    fn pending_end(&self) -> (r: usize)
        ensures
            r == self.pending_len(),
    {
        if self.filled <= self.buf.len() {
            self.filled
        } else {
            self.buf.len()
        }
    }

    /// An adapter over the sink `w` and the codec `d`.
    pub fn new(w: W, d: D) -> (r: Writer<W, D>)
        ensures
            r.sink() == Some(w),
            r.codec() == d,
            r.spec_pending() == Seq::<u8>::empty(),
    {
        let r = Writer { obj: Some(w), data: d, buf: vec![0u8; BUFFER_SIZE], filled: 0 };
        assert(r.buf@.subrange(0, 0) =~= Seq::<u8>::empty());
        r
    }

    /// The codec.
    pub fn data(&self) -> (r: &D)
        ensures
            *r == self.codec(),
    {
        &self.data
    }

    /// The codec, to reset or reconfigure it.
    pub fn data_mut(&mut self) -> (r: &mut D)
        ensures
            *r == old(self).codec(),
            final(self).codec() == *final(r),
            final(self).sink() == old(self).sink(),
            final(self).spec_pending() == old(self).spec_pending(),
    {
        &mut self.data
    }

    /// The codec output that is still to be written to the sink.
    pub fn pending(&self) -> (r: &[u8])
        ensures
            r@ == self.spec_pending(),
    {
        let (p, _) = self.buf.as_slice().split_at(self.pending_end());
        p
    }

    /// The sink, to write the pending output to, together with that
    /// output.
    pub fn sink_and_pending(&mut self) -> (r: (&mut W, &[u8]))
        requires
            old(self).sink() is Some,
        ensures
            *r.0 == old(self).sink().unwrap(),
            r.1@ == old(self).spec_pending(),
            final(self).sink() == Some(*final(r.0)),
            final(self).spec_pending() == old(self).spec_pending(),
            final(self).codec() == old(self).codec(),
    {
        let (p, _) = self.buf.as_slice().split_at(self.pending_end());
        match &mut self.obj {
            Some(w) => (w, p),
            None => {
                proof {
                    assert(false);
                }
                vstd::pervasive::unreached()
            },
        }
    }

    /// Records that the pending output has been written to the sink.
    pub fn clear_pending(&mut self)
        ensures
            final(self).spec_pending() == Seq::<u8>::empty(),
            final(self).sink() == old(self).sink(),
            final(self).codec() == old(self).codec(),
    {
        self.filled = 0;
        assert(self.buf@.subrange(0, 0) =~= Seq::<u8>::empty());
    }

    /// One codec call on `input` into the output buffer, which the caller
    /// has emptied into the sink first. Returns the bytes of `input` taken
    /// and what the adapter does next.
    pub fn write(&mut self, input: &[u8]) -> (r: (usize, WriteAction))
        requires
            old(self).spec_pending().len() == 0,
        ensures
            ops_ran(
                final(self).codec(),
                old(self).codec(),
                input@,
                BUFFER_SIZE as nat,
                Flush::NoFlush,
                final(self).spec_pending(),
            ),
            final(self).spec_pending() == old(self).codec().ops_out(
                input@,
                BUFFER_SIZE as nat,
                Flush::NoFlush,
            ).3,
            r.0 == old(self).codec().ops_out(input@, BUFFER_SIZE as nat, Flush::NoFlush).0,
            r.1 == spec_write_action(
                ops_result(old(self).codec(), input@, BUFFER_SIZE as nat, Flush::NoFlush),
                r.0,
                input@.len(),
            ),
            final(self).sink() == old(self).sink(),
    {
        self.buf.resize(BUFFER_SIZE, 0u8);
        let before_in = self.data.total_in();
        let before_out = self.data.total_out();
        let in_len = input.len();
        assert(self.buf@.len() == BUFFER_SIZE);
        let status = self.data.run(input, self.buf.as_mut_slice(), Flush::NoFlush);
        proof {
            let res = old(self).data.ops_out(input@, BUFFER_SIZE as nat, Flush::NoFlush);
            lemma_counter_delta(old(self).data.ops_total_in(), res.0 as int);
            lemma_counter_delta(old(self).data.ops_total_out(), res.1 as int);
        }
        let written = self.data.total_in().wrapping_sub(before_in) as usize;
        let produced = self.data.total_out().wrapping_sub(before_out) as usize;
        self.filled = produced;
        assert(self.spec_pending() == self.buf@.subrange(0, produced as int));
        assert(self.spec_pending().subrange(0, produced as int) =~= self.spec_pending());
        let action = match &status {
            Err(_) => WriteAction::Corrupt,
            Ok(Status::StreamEnd) => WriteAction::Done(written),
            Ok(_) => if input.len() > 0 && written == 0 {
                WriteAction::Retry
            } else {
                WriteAction::Done(written)
            },
        };
        (written, action)
    }

    /// One round of draining the codec with `flush` (`Sync` to flush,
    /// `Finish` to end the stream) into the output buffer, which the caller
    /// has emptied into the sink first. Fails exactly when the codec call
    /// fails; otherwise returns whether the codec produced anything: the
    /// caller repeats, writing out the buffer each time, until it did not.
    pub fn drain(&mut self, flush: Flush) -> (r: Result<bool, DataError>)
        requires
            old(self).spec_pending().len() == 0,
            is_stream_flush(flush),
        ensures
            ops_ran(
                final(self).codec(),
                old(self).codec(),
                Seq::<u8>::empty(),
                BUFFER_SIZE as nat,
                flush,
                final(self).spec_pending(),
            ),
            final(self).spec_pending() == old(self).codec().ops_out(
                Seq::<u8>::empty(),
                BUFFER_SIZE as nat,
                flush,
            ).3,
            final(self).sink() == old(self).sink(),
            r is Err <==> ops_result(
                old(self).codec(),
                Seq::<u8>::empty(),
                BUFFER_SIZE as nat,
                flush,
            ) is Err,
            r matches Ok(more) ==> more == (old(self).codec().ops_out(
                Seq::<u8>::empty(),
                BUFFER_SIZE as nat,
                flush,
            ).1 > 0),
    {
        self.buf.resize(BUFFER_SIZE, 0u8);
        let before_out = self.data.total_out();
        assert(self.buf@.len() == BUFFER_SIZE);
        let empty: Vec<u8> = Vec::new();
        let status = self.data.run(empty.as_slice(), self.buf.as_mut_slice(), flush);
        proof {
            lemma_counter_delta(
                old(self).data.ops_total_out(),
                old(self).data.ops_out(empty@, BUFFER_SIZE as nat, flush).1 as int,
            );
        }
        let produced = self.data.total_out().wrapping_sub(before_out) as usize;
        self.filled = produced;
        assert(self.spec_pending() == self.buf@.subrange(0, produced as int));
        assert(self.spec_pending().subrange(0, produced as int) =~= self.spec_pending());
        match status {
            Ok(_) => Ok(produced > 0),
            Err(e) => Err(e),
        }
    }

    /// One round of finishing the stream; see `drain`.
    pub fn finish(&mut self) -> (r: Result<bool, DataError>)
        requires
            old(self).spec_pending().len() == 0,
        ensures
            ops_ran(
                final(self).codec(),
                old(self).codec(),
                Seq::<u8>::empty(),
                BUFFER_SIZE as nat,
                Flush::Finish,
                final(self).spec_pending(),
            ),
            final(self).spec_pending() == old(self).codec().ops_out(
                Seq::<u8>::empty(),
                BUFFER_SIZE as nat,
                Flush::Finish,
            ).3,
            final(self).sink() == old(self).sink(),
            r is Err <==> ops_result(
                old(self).codec(),
                Seq::<u8>::empty(),
                BUFFER_SIZE as nat,
                Flush::Finish,
            ) is Err,
            r matches Ok(more) ==> more == (old(self).codec().ops_out(
                Seq::<u8>::empty(),
                BUFFER_SIZE as nat,
                Flush::Finish,
            ).1 > 0),
    {
        self.drain(Flush::Finish)
    }

    /// Swaps in a new sink, dropping any pending output, and returns the
    /// old one.
    pub fn replace(&mut self, w: W) -> (r: W)
        requires
            old(self).sink() is Some,
        ensures
            Some(r) == old(self).sink(),
            final(self).sink() == Some(w),
            final(self).spec_pending() == Seq::<u8>::empty(),
            final(self).codec() == old(self).codec(),
    {
        self.filled = 0;
        assert(self.buf@.subrange(0, 0) =~= Seq::<u8>::empty());
        let old_obj = self.obj.take();
        self.obj = Some(w);
        match old_obj {
            Some(o) => o,
            None => {
                proof {
                    assert(false);
                }
                vstd::pervasive::unreached()
            },
        }
    }

    /// The sink, while the adapter holds it.
    pub fn get_ref(&self) -> (r: Option<&W>)
        ensures
            r == (match self.sink() {
                Some(w) => Some(&w),
                None => None::<&W>,
            }),
    {
        match &self.obj {
            Some(w) => Some(w),
            None => None,
        }
    }

    /// The sink, while the adapter holds it, for writing to it.
    pub fn get_mut(&mut self) -> (r: Option<&mut W>)
        ensures
            (old(self).sink() is None) == (r is None),
            r matches Some(w) ==> *w == old(self).sink().unwrap() && final(self).sink() == Some(
                *final(w),
            ),
            r is None ==> final(self).sink() is None,
            final(self).spec_pending() == old(self).spec_pending(),
            final(self).codec() == old(self).codec(),
    {
        self.obj.as_mut()
    }

    /// Takes the sink out of the adapter.
    pub fn take_inner(&mut self) -> (r: Option<W>)
        ensures
            r == old(self).sink(),
            final(self).sink() is None,
            final(self).spec_pending() == old(self).spec_pending(),
            final(self).codec() == old(self).codec(),
    {
        self.obj.take()
    }

    /// Whether the adapter still holds its sink.
    pub fn is_present(&self) -> (r: bool)
        ensures
            r == self.sink() is Some,
    {
        self.obj.is_some()
    }

    /// Gives up the adapter for its sink.
    pub fn into_inner(self) -> (r: W)
        requires
            self.sink() is Some,
        ensures
            Some(r) == self.sink(),
    {
        match self.obj {
            Some(o) => o,
            None => {
                proof {
                    assert(false);
                }
                vstd::pervasive::unreached()
            },
        }
    }
}

} // verus!
