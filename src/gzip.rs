//! The gzip framing around a DEFLATE stream: the trailer, and the state
//! machines of the gzip decoder and encoders apart from their I/O.
use vstd::prelude::*;

use crate::crc::{add_mod64, crc32_of, Crc};
use crate::error::StreamError;
use crate::header::{
    byte_of, lemma_bad_magic_rejected, lemma_pow256_small, le32, parse_header, GzHeader,
    GzHeaderParser, HeaderParse,
};
use crate::mem::{Compress, Decompress};
use crate::zio::{
    ops_ran, ops_result, read as read_codec, read_flush, spec_read_action, spec_write_action, Ops,
    ReadAction, WriteAction, Writer,
};
use crate::Compression;

verus! {

/// The gzip trailer for data with CRC-32 `crc` and length `amt` modulo
/// `2^32`: both little-endian.
pub open spec fn trailer_bytes(crc: u32, amt: u32) -> Seq<u8> {
    seq![
        byte_of(crc as int, 0),
        byte_of(crc as int, 1),
        byte_of(crc as int, 2),
        byte_of(crc as int, 3),
        byte_of(amt as int, 0),
        byte_of(amt as int, 1),
        byte_of(amt as int, 2),
        byte_of(amt as int, 3),
    ]
}

/// An eight-byte trailer records CRC-32 `crc` and length `amt`.
pub open spec fn trailer_matches(t: Seq<u8>, crc: u32, amt: u32) -> bool {
    t.len() == 8 && le32(t, 0) == crc && le32(t, 4) == amt
}

/// The trailer bytes for `crc` and `amt`.
pub fn trailer(crc: u32, amt: u32) -> (r: [u8; 8])
    ensures
        r@ == trailer_bytes(crc, amt),
{
    proof {
        lemma_pow256_small();
    }
    let r = [
        (crc % 256) as u8,
        ((crc / 256) % 256) as u8,
        ((crc / 65536) % 256) as u8,
        ((crc / 16777216) % 256) as u8,
        (amt % 256) as u8,
        ((amt / 256) % 256) as u8,
        ((amt / 65536) % 256) as u8,
        ((amt / 16777216) % 256) as u8,
    ];
    assert(r@ =~= trailer_bytes(crc, amt));
    r
}

/// The little-endian 32-bit value at `t[i..i + 4]`.
fn read_le32(t: &[u8; 8], i: usize) -> (r: u32)
    requires
        i + 4 <= 8,
    ensures
        r == le32(t@, i as int),
{
    t[i] as u32 + 256 * (t[i + 1] as u32) + 65536 * (t[i + 2] as u32) + 16777216 * (
    t[i + 3] as u32)
}

/// Checks a trailer against the CRC-32 and length of the data decoded.
pub fn check_trailer(t: &[u8; 8], crc: u32, amt: u32) -> (r: Result<(), StreamError>)
    ensures
        r is Ok <==> trailer_matches(t@, crc, amt),
        r matches Err(e) ==> e == StreamError::ChecksumMismatch,
{
    if read_le32(t, 0) != crc || read_le32(t, 4) != amt {
        Err(StreamError::ChecksumMismatch)
    } else {
        Ok(())
    }
}

proof fn lemma_le32_injective(a: Seq<u8>, b: Seq<u8>, i: int)
    requires
        0 <= i,
        i + 4 <= a.len(),
        i + 4 <= b.len(),
        le32(a, i) == le32(b, i),
    ensures
        a[i] == b[i] && a[i + 1] == b[i + 1] && a[i + 2] == b[i + 2] && a[i + 3] == b[i + 3],
{
    let (a0, a1, a2, a3) = (a[i], a[i + 1], a[i + 2], a[i + 3]);
    let (b0, b1, b2, b3) = (b[i], b[i + 1], b[i + 2], b[i + 3]);
    assert(a0 == b0 && a1 == b1 && a2 == b2 && a3 == b3) by (bit_vector)
        requires
            a0 as u64 + 256 * a1 as u64 + 65536 * a2 as u64 + 16777216 * a3 as u64 == b0 as u64
                + 256 * b1 as u64 + 65536 * b2 as u64 + 16777216 * b3 as u64,
    ;
}

/// The trailer that the encoder writes is the one that the decoder
/// accepts: every other eight bytes, in particular any with a bit flipped,
/// are rejected with a checksum mismatch.
pub proof fn lemma_trailer_unique(t: Seq<u8>, crc: u32, amt: u32)
    requires
        t.len() == 8,
    ensures
        trailer_matches(trailer_bytes(crc, amt), crc, amt),
        trailer_matches(t, crc, amt) <==> t == trailer_bytes(crc, amt),
{
    lemma_pow256_small();
    let e = trailer_bytes(crc, amt);
    assert(crc % 256 + 256 * ((crc / 256) % 256) + 65536 * ((crc / 65536) % 256) + 16777216 * ((
    crc / 16777216) % 256) == crc) by (bit_vector);
    assert(amt % 256 + 256 * ((amt / 256) % 256) + 65536 * ((amt / 65536) % 256) + 16777216 * ((
    amt / 16777216) % 256) == amt) by (bit_vector);
    assert(trailer_matches(e, crc, amt));
    if trailer_matches(t, crc, amt) {
        lemma_le32_injective(t, e, 0);
        lemma_le32_injective(t, e, 4);
        assert(t =~= e);
    }
}

/// Copies `from[*pos..]` to the front of `into`, as far as it fits, and
/// advances `*pos` past what was copied.
pub fn copy(into: &mut [u8], from: &[u8], pos: &mut usize) -> (n: usize)
    requires
        *old(pos) <= from@.len(),
    ensures
        n == if old(into)@.len() < from@.len() - *old(pos) {
            old(into)@.len() as int
        } else {
            from@.len() - *old(pos)
        },
        *final(pos) == *old(pos) + n,
        final(into)@.len() == old(into)@.len(),
        final(into)@.subrange(0, n as int) == from@.subrange(*old(pos) as int, *old(pos) + n),
        final(into)@.subrange(n as int, final(into)@.len() as int) == old(into)@.subrange(
            n as int,
            old(into)@.len() as int,
        ),
{
    let start = *pos;
    let n: usize = if into.len() < from.len() - start {
        into.len()
    } else {
        from.len() - start
    };
    let mut i: usize = 0;
    while i < n
        invariant
            n <= into@.len(),
            start + n <= from@.len() <= usize::MAX,
            i <= n,
            into@.len() == old(into)@.len(),
            forall|k: int| 0 <= k < i ==> into@[k] == from@[start + k],
            forall|k: int| n <= k < into@.len() ==> into@[k] == old(into)@[k],
        decreases n - i,
    {
        into[i] = from[start + i];
        i = i + 1;
    }
    assert(into@.subrange(0, n as int) =~= from@.subrange(start as int, start + n));
    assert(into@.subrange(n as int, into@.len() as int) =~= old(into)@.subrange(
        n as int,
        old(into)@.len() as int,
    ));
    *pos = start + n;
    n
}

/// How many header bytes a step hands out, with `pos` of `len` header
/// bytes already out and a caller's buffer of `into_len` bytes.
pub open spec fn header_part(len: nat, pos: usize, into_len: nat) -> int {
    if pos < len {
        if into_len < len - pos {
            into_len as int
        } else {
            len - pos
        }
    } else {
        0
    }
}

/// What a gzip encoder does after one step.
#[derive(Clone, Copy, Debug, PartialEq, Eq, Structural)]
pub enum EncodeAction {
    /// Take a new look at the source and step again.
    Retry,
    /// Return this many bytes to the caller (0 at the end).
    Done(usize),
    /// The compressor failed.
    Fail(StreamError),
}

/// One step of a read-driven gzip encoder.
pub struct EncodeStep {
    /// Bytes of the source's buffer that were compressed.
    pub consumed: usize,
    pub action: EncodeAction,
}

/// The state of a read-driven gzip encoder, apart from its source: the
/// header goes out first, then the compressed body, then the trailer with
/// the CRC-32 and length of the bytes compressed.
pub struct GzEncoder {
    data: Compress,
    crc: Crc,
    header: Vec<u8>,
    pos: usize,
    eof: bool,
}

impl GzEncoder {
    /// The checksum of the source bytes compressed so far.
    pub closed spec fn spec_crc(&self) -> Crc {
        self.crc
    }

    /// The compressor of the body.
    pub closed spec fn spec_data(&self) -> Compress {
        self.data
    }

    /// The header bytes this encoder writes.
    pub closed spec fn spec_header(&self) -> Seq<u8> {
        self.header@
    }

    /// How far the current part (header, or trailer once `at_trailer`) has
    /// been written.
    pub closed spec fn spec_pos(&self) -> usize {
        self.pos
    }

    /// The body is complete and the trailer is being written.
    pub closed spec fn at_trailer(&self) -> bool {
        self.eof
    }

    pub closed spec fn wf(&self) -> bool {
        if self.eof {
            self.pos <= 8
        } else {
            self.pos <= self.header@.len()
        }
    }

    /// An encoder that writes `header`, then the body compressed at
    /// `level`, then the trailer.
    pub fn new(header: Vec<u8>, level: Compression) -> (r: GzEncoder)
        ensures
            r.wf(),
            r.spec_header() == header@,
            r.spec_pos() == 0,
            !r.at_trailer(),
            r.spec_crc().crc_value() == 0 && r.spec_crc().byte_count() == 0,
    {
        GzEncoder { data: Compress::new(level, false), crc: Crc::new(), header, pos: 0, eof: false }
    }

    /// The trailer for the bytes compressed so far.
    pub fn trailer(&self) -> (r: [u8; 8])
        ensures
            r@ == trailer_bytes(
                self.spec_crc().crc_value(),
                (self.spec_crc().byte_count() % 0x1_0000_0000) as u32,
            ),
    {
        trailer(self.crc.sum(), self.crc.amount())
    }

    /// One step of the encoder on the source's buffered bytes `input`
    /// (empty at the end of the source) into the caller's buffer `into`.
    pub fn read_step(&mut self, input: &[u8], into: &mut [u8]) -> (r: EncodeStep)
        requires
            old(self).wf(),
        ensures
            final(self).wf(),
            final(into)@.len() == old(into)@.len(),
            r.consumed <= input@.len(),
            final(self).spec_header() == old(self).spec_header(),
            // The source bytes taken are those the checksum moved over.
            r.consumed > 0 ==> final(self).spec_crc().crc_value() == crc32_of(
                old(self).spec_crc().crc_value(),
                input@.subrange(0, r.consumed as int),
            ),
            r.consumed > 0 ==> final(self).spec_crc().byte_count() == add_mod64(
                old(self).spec_crc().byte_count(),
                r.consumed as int,
            ),
            r.consumed == 0 ==> final(self).spec_crc() == old(self).spec_crc(),
            // Once at the trailer, steps hand out the rest of it.
            old(self).at_trailer() ==> {
                let t = trailer_bytes(
                    old(self).spec_crc().crc_value(),
                    (old(self).spec_crc().byte_count() % 0x1_0000_0000) as u32,
                );
                &&& r.consumed == 0
                &&& final(self).at_trailer()
                &&& final(self).spec_data() == old(self).spec_data()
                &&& r.action matches EncodeAction::Done(n) && final(self).spec_pos()
                    == old(self).spec_pos() + n && final(into)@.subrange(0, n as int)
                    == t.subrange(old(self).spec_pos() as int, old(self).spec_pos() + n)
                &&& (old(self).spec_pos() < 8 && old(into)@.len() > 0) ==> r.action
                    != EncodeAction::Done(0)
            },
            // A step before the trailer hands out something unless the
            // caller's buffer is empty.
            (!old(self).at_trailer() && old(into)@.len() > 0) ==> r.action != EncodeAction::Done(0),
            // After the header, the body comes from one codec call; when the
            // codec has no more, the trailer follows in the same step.
            !old(self).at_trailer() ==> {
                let amt = header_part(old(self).spec_header().len(), old(self).spec_pos(), old(into)@.len());
                let rest = old(into)@.len() - amt;
                if old(self).spec_pos() < old(self).spec_header().len() && amt == old(into)@.len() {
                    &&& r.consumed == 0
                    &&& r.action == EncodeAction::Done(amt as usize)
                    &&& !final(self).at_trailer()
                    &&& final(self).spec_data() == old(self).spec_data()
                } else {
                    let eof = input@.len() == 0;
                    let out = final(into)@.subrange(amt, old(into)@.len() as int);
                    let last = old(self).spec_data().ops_out(input@, rest as nat, read_flush(eof));
                    &&& ops_ran(final(self).spec_data(), old(self).spec_data(), input@, rest as nat, read_flush(eof), out)
                    &&& r.consumed == last.0
                    &&& match spec_read_action(old(self).spec_data().ops_status_of(last.2), last.1 as usize, eof, rest as nat) {
                        ReadAction::Corrupt => r.action == EncodeAction::Fail(StreamError::CorruptDeflate),
                        ReadAction::Retry => !final(self).at_trailer() && r.action == (if amt > 0 {
                            EncodeAction::Done(amt as usize)
                        } else {
                            EncodeAction::Retry
                        }),
                        ReadAction::Done(n) => if n > 0 {
                            !final(self).at_trailer() && r.action == EncodeAction::Done((amt + n) as usize)
                        } else {
                            let m = if rest < 8 { rest } else { 8 };
                            let t = trailer_bytes(
                                final(self).spec_crc().crc_value(),
                                (final(self).spec_crc().byte_count() % 0x1_0000_0000) as u32,
                            );
                            &&& final(self).at_trailer()
                            &&& final(self).spec_pos() == m
                            &&& r.action == EncodeAction::Done((amt + m) as usize)
                            &&& out.subrange(0, m) == t.subrange(0, m)
                        },
                    }
                }
            },
            // Before the body, steps hand out the rest of the header first.
            (!old(self).at_trailer() && old(self).spec_pos() < old(self).spec_header().len()) ==> {
                let n = if old(into)@.len() < old(self).spec_header().len() - old(self).spec_pos() {
                    old(into)@.len() as int
                } else {
                    old(self).spec_header().len() - old(self).spec_pos()
                };
                final(into)@.subrange(0, n) == old(self).spec_header().subrange(
                    old(self).spec_pos() as int,
                    old(self).spec_pos() + n,
                )
            },
    {
        if self.eof {
            let t = self.trailer();
            let n = copy(into, &t, &mut self.pos);
            return EncodeStep { consumed: 0, action: EncodeAction::Done(n) };
        }
        let mut amt: usize = 0;
        if self.pos < self.header.len() {
            amt = copy(into, self.header.as_slice(), &mut self.pos);
            if amt == into.len() {
                return EncodeStep { consumed: 0, action: EncodeAction::Done(amt) };
            }
        }
        let ghost into1 = into@;
        let (_, rest) = into.split_at_mut(amt);
        let step = read_codec(&mut self.data, input, rest);
        if step.consumed > 0 {
            let (taken, _) = input.split_at(step.consumed);
            self.crc.update(taken);
        }
        let r = match step.action {
            ReadAction::Corrupt => EncodeStep {
                consumed: step.consumed,
                action: EncodeAction::Fail(StreamError::CorruptDeflate),
            },
            ReadAction::Retry => if amt > 0 {
                EncodeStep { consumed: step.consumed, action: EncodeAction::Done(amt) }
            } else {
                EncodeStep { consumed: step.consumed, action: EncodeAction::Retry }
            },
            ReadAction::Done(n) => if n > 0 {
                EncodeStep { consumed: step.consumed, action: EncodeAction::Done(amt + n) }
            } else {
                self.eof = true;
                self.pos = 0;
                let t = trailer(self.crc.sum(), self.crc.amount());
                let m = copy(rest, &t, &mut self.pos);
                EncodeStep { consumed: step.consumed, action: EncodeAction::Done(amt + m) }
            },
        };
        let ghost rest_end = rest@;
        proof {
            let res = old(self).data.ops_out(
                input@,
                (into1.len() - amt) as nat,
                read_flush(input@.len() == 0),
            );
            if res.1 == 0 {
                assert(rest_end.subrange(0, 0) =~= res.3);
            }
        }
        assert(into@.subrange(0, amt as int) =~= into1.subrange(0, amt as int));
        assert(into@.subrange(amt as int, into@.len() as int) =~= rest_end);
        r
    }
}

/// The state of a write-driven gzip encoder: the header goes to the sink
/// before anything else, the data written is compressed and checksummed,
/// and finishing appends the trailer.
pub struct GzWriter<W> {
    inner: Writer<W, Compress>,
    crc: Crc,
    header: Vec<u8>,
}

impl<W> GzWriter<W> {
    /// The checksum of the bytes compressed so far.
    pub closed spec fn spec_crc(&self) -> Crc {
        self.crc
    }

    /// Header bytes not yet written to the sink.
    pub closed spec fn spec_header_pending(&self) -> Seq<u8> {
        self.header@
    }

    /// The adapter state around the compressor.
    pub closed spec fn spec_inner(&self) -> Writer<W, Compress> {
        self.inner
    }

    /// An encoder over the sink `w` that writes `header` first and
    /// compresses at `level`.
    pub fn new(w: W, header: Vec<u8>, level: Compression) -> (r: GzWriter<W>)
        ensures
            r.spec_header_pending() == header@,
            r.spec_inner().sink() == Some(w),
            r.spec_inner().spec_pending().len() == 0,
            r.spec_crc().crc_value() == 0 && r.spec_crc().byte_count() == 0,
    {
        GzWriter { inner: Writer::new(w, Compress::new(level, false)), crc: Crc::new(), header }
    }

    /// The header bytes still to be written to the sink.
    pub fn header_pending(&self) -> (r: &[u8])
        ensures
            r@ == self.spec_header_pending(),
    {
        self.header.as_slice()
    }

    /// Records that the header has been written to the sink.
    pub fn header_written(&mut self)
        ensures
            final(self).spec_header_pending().len() == 0,
            final(self).spec_inner() == old(self).spec_inner(),
            final(self).spec_crc() == old(self).spec_crc(),
    {
        self.header.clear();
    }

    /// The adapter state around the compressor: its pending output and its
    /// sink.
    pub fn inner(&self) -> (r: &Writer<W, Compress>)
        ensures
            *r == self.spec_inner(),
    {
        &self.inner
    }

    /// The adapter state around the compressor, to write out its pending
    /// output or reach the sink.
    pub fn inner_mut(&mut self) -> (r: &mut Writer<W, Compress>)
        ensures
            *r == old(self).spec_inner(),
            final(self).spec_inner() == *final(r),
            final(self).spec_crc() == old(self).spec_crc(),
            final(self).spec_header_pending() == old(self).spec_header_pending(),
    {
        &mut self.inner
    }

    /// Compresses what one codec call takes of `input`, after the header
    /// and the pending output have been written to the sink; the bytes
    /// taken go into the checksum.
    pub fn write(&mut self, input: &[u8]) -> (r: (usize, WriteAction))
        requires
            old(self).spec_header_pending().len() == 0,
            old(self).spec_inner().spec_pending().len() == 0,
        ensures
            r.0 <= input@.len(),
            final(self).spec_header_pending().len() == 0,
            final(self).spec_crc().crc_value() == crc32_of(
                old(self).spec_crc().crc_value(),
                input@.subrange(0, r.0 as int),
            ),
            final(self).spec_crc().byte_count() == add_mod64(
                old(self).spec_crc().byte_count(),
                r.0 as int,
            ),
            final(self).spec_inner().sink() == old(self).spec_inner().sink(),
            final(self).spec_inner().spec_pending() == old(self).spec_inner().codec().ops_out(
                input@,
                crate::zio::BUFFER_SIZE as nat,
                crate::mem::Flush::NoFlush,
            ).3,
            r.0 == old(self).spec_inner().codec().ops_out(
                input@,
                crate::zio::BUFFER_SIZE as nat,
                crate::mem::Flush::NoFlush,
            ).0,
            r.1 == spec_write_action(
                crate::zio::ops_result(
                    old(self).spec_inner().codec(),
                    input@,
                    crate::zio::BUFFER_SIZE as nat,
                    crate::mem::Flush::NoFlush,
                ),
                r.0,
                input@.len(),
            ),
            ops_ran(
                final(self).spec_inner().codec(),
                old(self).spec_inner().codec(),
                input@,
                crate::zio::BUFFER_SIZE as nat,
                crate::mem::Flush::NoFlush,
                final(self).spec_inner().spec_pending(),
            ),
    {
        let (n, action) = self.inner.write(input);
        let (taken, _) = input.split_at(n);
        self.crc.update(taken);
        (n, action)
    }

    /// The trailer for the bytes compressed so far.
    pub fn trailer(&self) -> (r: [u8; 8])
        ensures
            r@ == trailer_bytes(
                self.spec_crc().crc_value(),
                (self.spec_crc().byte_count() % 0x1_0000_0000) as u32,
            ),
    {
        trailer(self.crc.sum(), self.crc.amount())
    }

    /// Gives up the encoder for its adapter state.
    pub fn into_inner(self) -> (r: Writer<W, Compress>)
        ensures
            r == self.spec_inner(),
    {
        self.inner
    }
}

/// A gzip decoder that has read nothing yet, given a source whose first
/// ten bytes lack the gzip magic `1f 8b` or the DEFLATE method `8`, fails
/// with an invalid-header error and produces nothing more.
pub proof fn lemma_decoder_rejects_bad_magic(
    d0: GzDecoder,
    d1: GzDecoder,
    input: Seq<u8>,
    dst_len: nat,
    dst: Seq<u8>,
    r: DecodeStep,
)
    requires
        d0.spec_state() matches GzState::Header(p) && p.seen().len() == 0,
        decode_step_spec(d0, d1, input, dst_len, dst, r),
        r.consumed <= input.len(),
        input.len() >= 10,
        input[0] != 0x1f || input[1] != 0x8b || input[2] != 8,
    ensures
        r.action == DecodeAction::Fail(StreamError::InvalidHeader),
        d1.spec_state() == GzState::End(None),
{
    if let GzState::Header(p) = d0.spec_state() {
        let seen = p.seen() + input.subrange(0, r.consumed as int);
        if r.consumed >= 10 {
            assert(seen[0] == input[0] && seen[1] == input[1] && seen[2] == input[2]);
            lemma_bad_magic_rejected(seen);
        } else {
            assert(parse_header(seen) is Incomplete);
        }
    }
}

/// A gzip decoder that has read a trailer which is not the one for the
/// data it decoded (for example one whose length field is one more) fails
/// with a checksum mismatch and produces nothing more.
pub proof fn lemma_decoder_rejects_wrong_trailer(
    d0: GzDecoder,
    d1: GzDecoder,
    input: Seq<u8>,
    dst_len: nat,
    dst: Seq<u8>,
    r: DecodeStep,
)
    requires
        d0.spec_state() matches GzState::Finished(_, pos, t) && pos == 8 && t@ != trailer_bytes(
            d0.spec_crc().crc_value(),
            (d0.spec_crc().byte_count() % 0x1_0000_0000) as u32,
        ),
        decode_step_spec(d0, d1, input, dst_len, dst, r),
    ensures
        r.action == DecodeAction::Fail(StreamError::ChecksumMismatch),
        d1.spec_state() matches GzState::End(Some(_)),
{
    if let GzState::Finished(h, pos, t) = d0.spec_state() {
        lemma_trailer_unique(
            t@,
            d0.spec_crc().crc_value(),
            (d0.spec_crc().byte_count() % 0x1_0000_0000) as u32,
        );
    }
}

/// `std::mem::replace`: puts `src` in place of `*dest` and returns what
/// was there.
pub assume_specification<T>[ core::mem::replace::<T> ](dest: &mut T, src: T) -> (r: T)
    ensures
        r == *old(dest),
        *final(dest) == src,
;

/// Where a gzip decoder is in its input.
#[derive(Debug)]
pub enum GzState {
    /// Reading the header.
    Header(GzHeaderParser),
    /// Decompressing the body.
    Body(GzHeader),
    /// Reading the trailer: the bytes read so far and their count.
    Finished(GzHeader, usize, [u8; 8]),
    /// An error to report on the next read.
    Failed(StreamError),
    /// Nothing more to produce.
    End(Option<GzHeader>),
}

/// What a gzip decoder does after one step.
#[derive(Clone, Copy, Debug, PartialEq, Eq, Structural)]
pub enum DecodeAction {
    /// Take a new look at the source and step again.
    Retry,
    /// Return this many bytes to the caller (0 at the end).
    Done(usize),
    /// Report this error.
    Fail(StreamError),
}

/// One step of a gzip decoder: the bytes it took from the front of the
/// source's buffer, and what the reader does next.
pub struct DecodeStep {
    pub consumed: usize,
    /// Bytes written to the front of the caller's buffer.
    pub produced: usize,
    pub action: DecodeAction,
}

/// The state of a gzip decoder over a buffered source, apart from the
/// source: each step takes the source's buffered bytes (empty at its end)
/// and the caller's output buffer.
pub struct GzDecoder {
    state: GzState,
    data: Decompress,
    crc: Crc,
    multi: bool,
}

impl GzDecoder {
    pub closed spec fn spec_state(&self) -> GzState {
        self.state
    }

    /// The checksum of the output of the current member.
    pub closed spec fn spec_crc(&self) -> Crc {
        self.crc
    }

    /// The decompressor of the current member's body.
    pub closed spec fn spec_data(&self) -> Decompress {
        self.data
    }

    /// Whether members that follow the first are decoded too.
    pub closed spec fn is_multi(&self) -> bool {
        self.multi
    }

    pub closed spec fn wf(&self) -> bool {
        match self.state {
            GzState::Header(p) => p.wf() && !p.is_done(),
            GzState::Finished(_, pos, _) => pos <= 8,
            _ => true,
        }
    }

    /// A decoder at the start of a gzip stream; with `multi`, it goes on to
    /// the members that follow the first.
    pub fn new(multi: bool) -> (r: GzDecoder)
        ensures
            r.wf(),
            r.is_multi() == multi,
            r.spec_state() matches GzState::Header(p) && p.seen().len() == 0,
            r.spec_crc().crc_value() == 0 && r.spec_crc().byte_count() == 0,
    {
        GzDecoder {
            state: GzState::Header(GzHeaderParser::new()),
            data: Decompress::new(false),
            crc: Crc::new(),
            multi,
        }
    }

    /// Whether the decoder is still reading the (first) header.
    pub fn in_header(&self) -> (r: bool)
        ensures
            r == (self.spec_state() is Header),
    {
        match &self.state {
            GzState::Header(_) => true,
            _ => false,
        }
    }

    /// Keeps `e` to be reported by the next step.
    pub fn defer_error(&mut self, e: StreamError)
        ensures
            final(self).wf(),
            final(self).spec_state() == GzState::Failed(e),
            final(self).is_multi() == old(self).is_multi(),
    {
        self.state = GzState::Failed(e);
    }

    /// Stops the decoder: every later step reports the end of the stream.
    pub fn abandon(&mut self)
        ensures
            final(self).wf(),
            final(self).spec_state() == GzState::End(None),
            final(self).is_multi() == old(self).is_multi(),
    {
        self.state = GzState::End(None);
    }

    /// The header of the current member, once it has been read.
    pub fn header(&self) -> (r: Option<&GzHeader>)
        ensures
            r == (match self.spec_state() {
                GzState::Body(h) => Some(&h),
                GzState::Finished(h, _, _) => Some(&h),
                GzState::End(Some(h)) => Some(&h),
                _ => None::<&GzHeader>,
            }),
    {
        match &self.state {
            GzState::Body(h) => Some(h),
            GzState::Finished(h, _, _) => Some(h),
            GzState::End(Some(h)) => Some(h),
            _ => None,
        }
    }

    /// Whether the next step looks at the source's buffer, for a caller's
    /// buffer of `dst_len` bytes. A reader asks its source for bytes only
    /// then.
    pub fn needs_input(&self, dst_len: usize) -> (r: bool)
        ensures
            r == (match self.spec_state() {
                GzState::Header(_) => true,
                GzState::Body(_) => dst_len > 0,
                GzState::Finished(_, pos, _) => pos < 8 || self.is_multi(),
                _ => false,
            }),
    {
        match &self.state {
            GzState::Header(_) => true,
            GzState::Body(_) => dst_len > 0,
            GzState::Finished(_, pos, _) => *pos < 8 || self.multi,
            _ => false,
        }
    }

    /// One step of the decoder on the source's buffered bytes `input`
    /// (empty at the end of the source) and the caller's buffer `dst`.
    pub fn read_step(&mut self, input: &[u8], dst: &mut [u8]) -> (r: DecodeStep)
        requires
            old(self).wf(),
        ensures
            final(self).wf(),
            final(self).is_multi() == old(self).is_multi(),
            final(dst)@.len() == old(dst)@.len(),
            r.consumed <= input@.len(),
            decode_step_spec(*old(self), *final(self), input@, old(dst)@.len(), final(dst)@, r),
    {
        let state = core::mem::replace(&mut self.state, GzState::End(None));
        match state {
            GzState::Header(mut p) => {
                if input.len() == 0 {
                    self.state = GzState::End(None);
                    return DecodeStep { consumed: 0, produced: 0, action: DecodeAction::Fail(StreamError::InvalidHeader) };
                }
                let progress = p.parse(input);
                match progress.result {
                    Ok(true) => {
                        self.state = GzState::Body(p.take_header());
                        DecodeStep { consumed: progress.consumed, produced: 0, action: DecodeAction::Retry }
                    },
                    Ok(false) => {
                        self.state = GzState::Header(p);
                        DecodeStep { consumed: progress.consumed, produced: 0, action: DecodeAction::Retry }
                    },
                    Err(e) => {
                        self.state = GzState::End(None);
                        DecodeStep { consumed: progress.consumed, produced: 0, action: DecodeAction::Fail(e) }
                    },
                }
            },
            GzState::Body(h) => {
                if dst.len() == 0 {
                    self.state = GzState::Body(h);
                    return DecodeStep { consumed: 0, produced: 0, action: DecodeAction::Done(0) };
                }
                let step = read_codec(&mut self.data, input, dst);
                if step.produced > 0 {
                    let (out, _) = dst.split_at(step.produced);
                    assert(out@ == dst@.subrange(0, step.produced as int));
                    self.crc.update(out);
                }
                match step.action {
                    ReadAction::Corrupt => {
                        self.state = GzState::Body(h);
                        DecodeStep { consumed: step.consumed, produced: step.produced, action: DecodeAction::Fail(StreamError::CorruptDeflate),
                        }
                    },
                    ReadAction::Retry => {
                        self.state = GzState::Body(h);
                        DecodeStep { consumed: step.consumed, produced: step.produced, action: DecodeAction::Retry }
                    },
                    ReadAction::Done(n) => {
                        if n == 0 {
                            self.state = GzState::Finished(h, 0, [0u8; 8]);
                            DecodeStep { consumed: step.consumed, produced: step.produced, action: DecodeAction::Retry }
                        } else {
                            self.state = GzState::Body(h);
                            DecodeStep { consumed: step.consumed, produced: step.produced, action: DecodeAction::Done(n) }
                        }
                    },
                }
            },
            GzState::Finished(h, pos, buf) => {
                if pos < 8 {
                    if input.len() == 0 {
                        self.state = GzState::Finished(h, pos, buf);
                        return DecodeStep { consumed: 0, produced: 0, action: DecodeAction::Fail(StreamError::UnexpectedEof),
                        };
                    }
                    let ghost b0 = buf;
                    let mut buf = buf;
                    let k: usize = if input.len() < 8 - pos {
                        input.len()
                    } else {
                        8 - pos
                    };
                    let mut i: usize = 0;
                    while i < k
                        invariant
                            pos + k <= 8,
                            k <= input@.len(),
                            i <= k,
                            forall|j: int| 0 <= j < pos ==> buf@[j] == b0@[j],
                            forall|j: int| 0 <= j < i ==> buf@[pos + j] == input@[j],
                        decreases k - i,
                    {
                        buf[pos + i] = input[i];
                        i = i + 1;
                    }
                    assert(buf@.subrange(0, pos as int) =~= b0@.subrange(0, pos as int));
                    assert(buf@.subrange(pos as int, pos + k) =~= input@.subrange(0, k as int));
                    self.state = GzState::Finished(h, pos + k, buf);
                    DecodeStep { consumed: k, produced: 0, action: DecodeAction::Retry }
                } else {
                    match check_trailer(&buf, self.crc.sum(), self.crc.amount()) {
                        Err(e) => {
                            self.state = GzState::End(Some(h));
                            DecodeStep { consumed: 0, produced: 0, action: DecodeAction::Fail(e) }
                        },
                        Ok(()) => {
                            if self.multi && input.len() > 0 {
                                self.crc.reset();
                                self.data.reset(false);
                                self.state = GzState::Header(GzHeaderParser::new());
                            } else {
                                self.state = GzState::End(Some(h));
                            }
                            DecodeStep { consumed: 0, produced: 0, action: DecodeAction::Retry }
                        },
                    }
                }
            },
            GzState::Failed(e) => {
                self.state = GzState::End(None);
                DecodeStep { consumed: 0, produced: 0, action: DecodeAction::Fail(e) }
            },
            GzState::End(h) => {
                self.state = GzState::End(h);
                DecodeStep { consumed: 0, produced: 0, action: DecodeAction::Done(0) }
            },
        }
    }
}

/// What one step of a gzip decoder does, from its state before (`d0`) to
/// its state after (`d1`), on the source's bytes `input`, for a caller's
/// buffer of `dst_len` bytes that holds `dst` afterwards.
/// The step left the checksum and the decompressor as they were.
pub open spec fn keeps_codec(d1: GzDecoder, d0: GzDecoder) -> bool {
    d1.spec_crc() == d0.spec_crc() && d1.spec_data() == d0.spec_data()
}

pub open spec fn decode_step_spec(
    d0: GzDecoder,
    d1: GzDecoder,
    input: Seq<u8>,
    dst_len: nat,
    dst: Seq<u8>,
    r: DecodeStep,
) -> bool {
    match d0.spec_state() {
        GzState::Header(p) => if input.len() == 0 {
            &&& keeps_codec(d1, d0)
            &&& d1.spec_state() == GzState::End(None)
            &&& r.consumed == 0
            &&& r.action == DecodeAction::Fail(StreamError::InvalidHeader)
        } else {
            let seen = p.seen() + input.subrange(0, r.consumed as int);
            &&& keeps_codec(d1, d0)
            &&& match parse_header(seen) {
                HeaderParse::Incomplete => {
                    &&& r.consumed == input.len()
                    &&& r.action == DecodeAction::Retry
                    &&& d1.spec_state() matches GzState::Header(next) && next.seen() == seen
                },
                HeaderParse::Complete(view, n) => {
                    &&& seen.len() == n
                    &&& r.action == DecodeAction::Retry
                    &&& d1.spec_state() matches GzState::Body(h) && h@ == view
                },
                HeaderParse::Invalid(e) => {
                    &&& r.action == DecodeAction::Fail(e)
                    &&& d1.spec_state() == GzState::End(None)
                },
            }
        },
        GzState::Body(h) => if dst_len == 0 {
            &&& keeps_codec(d1, d0)
            &&& r.consumed == 0
            &&& r.action == DecodeAction::Done(0)
            &&& d1.spec_state() == d0.spec_state()
        } else {
            let produced = r.produced;
            let eof = input.len() == 0;
            {
                &&& ops_ran(d1.spec_data(), d0.spec_data(), input, dst_len, read_flush(eof), dst)
                &&& r.consumed == d0.spec_data().ops_out(input, dst_len, read_flush(eof)).0
                &&& produced == d0.spec_data().ops_out(input, dst_len, read_flush(eof)).1
                &&& produced > 0 ==> d1.spec_crc().crc_value() == crc32_of(
                    d0.spec_crc().crc_value(),
                    dst.subrange(0, produced as int),
                )
                &&& produced > 0 ==> d1.spec_crc().byte_count() == add_mod64(
                    d0.spec_crc().byte_count(),
                    produced as int,
                )
                &&& produced == 0 ==> d1.spec_crc() == d0.spec_crc()
                &&& match spec_read_action(
                    ops_result(d0.spec_data(), input, dst_len, read_flush(eof)),
                    produced,
                    eof,
                    dst_len,
                ) {
                    ReadAction::Corrupt => r.action == DecodeAction::Fail(
                        StreamError::CorruptDeflate,
                    ) && d1.spec_state() == d0.spec_state(),
                    ReadAction::Retry => r.action == DecodeAction::Retry && d1.spec_state()
                        == d0.spec_state(),
                    ReadAction::Done(n) => if n == 0 {
                        &&& r.action == DecodeAction::Retry
                        &&& d1.spec_state() matches GzState::Finished(h1, pos1, _)
                        &&& h1 == h
                        &&& pos1 == 0
                    } else {
                        r.action == DecodeAction::Done(n) && d1.spec_state() == d0.spec_state()
                    },
                }
            }
        },
        GzState::Finished(h, pos, t) => if pos < 8 {
            if input.len() == 0 {
                &&& keeps_codec(d1, d0)
                &&& r.consumed == 0
                &&& r.action == DecodeAction::Fail(StreamError::UnexpectedEof)
                &&& d1.spec_state() == d0.spec_state()
            } else {
                let k = if input.len() < 8 - pos {
                    input.len() as int
                } else {
                    8 - pos
                };
                &&& keeps_codec(d1, d0)
                &&& r.consumed == k
                &&& r.action == DecodeAction::Retry
                &&& d1.spec_state() matches GzState::Finished(h1, pos1, t1) && h1 == h && pos1
                    == pos + k && t1@.subrange(0, pos as int) == t@.subrange(0, pos as int)
                    && t1@.subrange(pos as int, pos + k) == input.subrange(0, k)
            }
        } else {
            let ok = trailer_matches(
                t@,
                d0.spec_crc().crc_value(),
                (d0.spec_crc().byte_count() % 0x1_0000_0000) as u32,
            );
            &&& r.consumed == 0
            &&& !ok ==> r.action == DecodeAction::Fail(StreamError::ChecksumMismatch)
                && d1.spec_state() == GzState::End(Some(h)) && keeps_codec(d1, d0)
            &&& ok ==> r.action == DecodeAction::Retry
            &&& (ok && d0.is_multi() && input.len() > 0) ==> (d1.spec_state() matches GzState::Header(
                p,
            ) && p.seen().len() == 0 && d1.spec_crc().crc_value() == 0
                && d1.spec_crc().byte_count() == 0 && d1.spec_data().is_fresh(false))
            &&& (ok && !(d0.is_multi() && input.len() > 0)) ==> d1.spec_state() == GzState::End(
                Some(h),
            ) && keeps_codec(d1, d0)
        },
        GzState::Failed(e) => {
            &&& keeps_codec(d1, d0)
            &&& r.consumed == 0
            &&& r.action == DecodeAction::Fail(e)
            &&& d1.spec_state() == GzState::End(None)
        },
        GzState::End(h) => {
            &&& keeps_codec(d1, d0)
            &&& r.consumed == 0
            &&& r.action == DecodeAction::Done(0)
            &&& d1.spec_state() == d0.spec_state()
        },
    }
}

} // verus!
