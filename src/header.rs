//! The gzip header: its fields, its byte layout, a builder that writes it
//! and a parser that reads it from input that may arrive in pieces.
use vstd::prelude::*;

use crate::crc::crc32_of;
use crate::error::StreamError;
use crate::Compression;

verus! {

/// Flag bit: the header ends with a CRC-16 of the bytes before it.
pub const FHCRC: u8 = 2;

/// Flag bit: an extra field follows the fixed part.
pub const FEXTRA: u8 = 4;

/// Flag bit: a zero-terminated file name follows.
pub const FNAME: u8 = 8;

/// Flag bit: a zero-terminated comment follows.
pub const FCOMMENT: u8 = 16;

/// What a gzip header says, as plain values.
pub struct HeaderView {
    pub extra: Option<Seq<u8>>,
    pub filename: Option<Seq<u8>>,
    pub comment: Option<Seq<u8>>,
    pub operating_system: u8,
    pub mtime: u32,
}

/// The header of a gzip stream.
#[derive(Clone, Debug, PartialEq)]
pub struct GzHeader {
    extra: Option<Vec<u8>>,
    filename: Option<Vec<u8>>,
    comment: Option<Vec<u8>>,
    operating_system: u8,
    mtime: u32,
}

pub open spec fn opt_bytes(o: Option<Vec<u8>>) -> Option<Seq<u8>> {
    match o {
        Some(v) => Some(v@),
        None => None,
    }
}

pub open spec fn opt_slice(o: Option<&[u8]>) -> Option<Seq<u8>> {
    match o {
        Some(v) => Some(v@),
        None => None,
    }
}

fn field_slice(o: &Option<Vec<u8>>) -> (r: Option<&[u8]>)
    ensures
        opt_slice(r) == opt_bytes(*o),
{
    match o {
        Some(v) => Some(v.as_slice()),
        None => None,
    }
}

impl View for GzHeader {
    type V = HeaderView;

    closed spec fn view(&self) -> HeaderView {
        HeaderView {
            extra: opt_bytes(self.extra),
            filename: opt_bytes(self.filename),
            comment: opt_bytes(self.comment),
            operating_system: self.operating_system,
            mtime: self.mtime,
        }
    }
}

impl GzHeader {
    /// The file name, without its terminating zero, if the header has one.
    pub fn filename(&self) -> (r: Option<&[u8]>)
        ensures
            opt_slice(r) == self@.filename,
    {
        field_slice(&self.filename)
    }

    /// The extra field, if the header has one.
    pub fn extra(&self) -> (r: Option<&[u8]>)
        ensures
            opt_slice(r) == self@.extra,
    {
        field_slice(&self.extra)
    }

    /// The comment, without its terminating zero, if the header has one.
    pub fn comment(&self) -> (r: Option<&[u8]>)
        ensures
            opt_slice(r) == self@.comment,
    {
        field_slice(&self.comment)
    }

    /// The operating system byte; 255 means unknown.
    pub fn operating_system(&self) -> (r: u8)
        ensures
            r == self@.operating_system,
    {
        self.operating_system
    }

    /// The modification time in seconds since the Unix epoch; 0 means
    /// none is recorded.
    pub fn mtime(&self) -> (r: u32)
        ensures
            r == self@.mtime,
    {
        self.mtime
    }

    /// The modification time as a point in time, or `None` when the header
    /// records none (or, on a platform that cannot represent it, when the
    /// time lies outside its range).
    pub fn mtime_as_datetime(&self) -> (r: Option<std::time::SystemTime>)
        ensures
            self@.mtime == 0 ==> r is None,
    {
        if self.mtime == 0 {
            None
        } else {
            after_unix_epoch(core::time::Duration::from_secs(self.mtime as u64))
        }
    }
}

#[verifier::external_type_specification]
#[verifier::external_body]
pub struct ExSystemTime(std::time::SystemTime);

/// `Duration::from_secs`: a duration of whole seconds; it takes every
/// `u64`.
pub assume_specification[ core::time::Duration::from_secs ](secs: u64) -> core::time::Duration;

/// Relies on `SystemTime::checked_add`: the point `d` after the Unix epoch,
/// or `None` where the platform cannot represent it. It does not panic.
#[verifier::external_body]
fn after_unix_epoch(d: core::time::Duration) -> Option<std::time::SystemTime> {
    std::time::UNIX_EPOCH.checked_add(d)
}

/// Appends the bytes of `s` to `v`.
pub fn append_bytes(v: &mut Vec<u8>, s: &[u8])
    ensures
        final(v)@ == old(v)@ + s@,
{
    let mut i: usize = 0;
    while i < s.len()
        invariant
            i <= s@.len(),
            v@ == old(v)@ + s@.subrange(0, i as int),
        decreases s@.len() - i,
    {
        v.push(s[i]);
        i = i + 1;
        assert(v@ =~= old(v)@ + s@.subrange(0, i as int));
    }
    assert(s@.subrange(0, i as int) =~= s@);
}

/// No byte of `s` is zero.
pub open spec fn no_zero(s: Seq<u8>) -> bool {
    forall|i: int| 0 <= i < s.len() ==> s[i] != 0
}

/// The `i`-th byte, least significant first, of `x`.
pub open spec fn byte_of(x: int, i: nat) -> u8 {
    ((x / pow256(i)) % 256) as u8
}

pub open spec fn pow256(i: nat) -> int
    decreases i,
{
    if i == 0 {
        1
    } else {
        256 * pow256((i - 1) as nat)
    }
}

/// The extra-flags byte that a header records for a compression level.
pub open spec fn xfl_for(level: Compression) -> u8 {
    if level.spec_level() >= 9 {
        2
    } else if level.spec_level() <= 1 {
        4
    } else {
        0
    }
}

/// The flag byte for the optional fields that are present.
pub open spec fn flags_for(extra: bool, filename: bool, comment: bool) -> u8 {
    (if extra {
        FEXTRA
    } else {
        0u8
    }) | (if filename {
        FNAME
    } else {
        0u8
    }) | (if comment {
        FCOMMENT
    } else {
        0u8
    })
}

/// The encoding of an optional extra field: a little-endian length, then
/// the bytes.
pub open spec fn extra_part(extra: Option<Seq<u8>>) -> Seq<u8> {
    match extra {
        Some(e) => seq![byte_of(e.len() as int, 0), byte_of(e.len() as int, 1)] + e,
        None => Seq::empty(),
    }
}

/// The encoding of an optional zero-terminated field.
pub open spec fn zstr_part(field: Option<Seq<u8>>) -> Seq<u8> {
    match field {
        Some(f) => f.push(0),
        None => Seq::empty(),
    }
}

/// The bytes of a gzip header with the given fields, written for a stream
/// compressed at `level`.
pub open spec fn header_bytes(h: HeaderView, level: Compression) -> Seq<u8> {
    seq![
        0x1fu8,
        0x8bu8,
        8u8,
        flags_for(h.extra is Some, h.filename is Some, h.comment is Some),
        byte_of(h.mtime as int, 0),
        byte_of(h.mtime as int, 1),
        byte_of(h.mtime as int, 2),
        byte_of(h.mtime as int, 3),
        xfl_for(level),
        h.operating_system,
    ] + extra_part(h.extra) + zstr_part(h.filename) + zstr_part(h.comment)
}

/// Collects the optional fields of a gzip header, then writes it.
#[derive(Debug)]
pub struct GzBuilder {
    extra: Option<Vec<u8>>,
    filename: Option<Vec<u8>>,
    comment: Option<Vec<u8>>,
    operating_system: Option<u8>,
    mtime: u32,
}

impl GzBuilder {
    /// The header that this builder writes.
    pub closed spec fn spec_header(&self) -> HeaderView {
        HeaderView {
            extra: opt_bytes(self.extra),
            filename: opt_bytes(self.filename),
            comment: opt_bytes(self.comment),
            operating_system: match self.operating_system {
                Some(os) => os,
                None => 255u8,
            },
            mtime: self.mtime,
        }
    }

    /// The fields fit the header layout: the extra field's length fits its
    /// 16-bit prefix, and the name and comment hold no zero byte.
    pub open spec fn wf(&self) -> bool {
        valid_fields(self.spec_header())
    }

    /// A builder with no optional fields, mtime 0 and operating system 255
    /// (unknown).
    pub fn new() -> (r: GzBuilder)
        ensures
            r.wf(),
            r.spec_header() == (HeaderView {
                extra: None,
                filename: None,
                comment: None,
                operating_system: 255,
                mtime: 0,
            }),
    {
        GzBuilder { extra: None, filename: None, comment: None, operating_system: None, mtime: 0 }
    }

    /// Sets the modification time.
    pub fn mtime(self, mtime: u32) -> (r: GzBuilder)
        requires
            self.wf(),
        ensures
            r.wf(),
            r.spec_header() == (HeaderView { mtime, ..self.spec_header() }),
    {
        GzBuilder { mtime, ..self }
    }

    /// Sets the operating system byte.
    pub fn operating_system(self, os: u8) -> (r: GzBuilder)
        requires
            self.wf(),
        ensures
            r.wf(),
            r.spec_header() == (HeaderView { operating_system: os, ..self.spec_header() }),
    {
        GzBuilder { operating_system: Some(os), ..self }
    }

    /// Sets the extra field; its length must fit in 16 bits.
    pub fn extra(self, extra: Vec<u8>) -> (r: GzBuilder)
        requires
            self.wf(),
            extra@.len() <= 0xffff,
        ensures
            r.wf(),
            r.spec_header() == (HeaderView { extra: Some(extra@), ..self.spec_header() }),
    {
        GzBuilder { extra: Some(extra), ..self }
    }

    /// Sets the file name; it must hold no zero byte.
    pub fn filename(self, filename: Vec<u8>) -> (r: GzBuilder)
        requires
            self.wf(),
            no_zero(filename@),
        ensures
            r.wf(),
            r.spec_header() == (HeaderView { filename: Some(filename@), ..self.spec_header() }),
    {
        GzBuilder { filename: Some(filename), ..self }
    }

    /// Sets the comment; it must hold no zero byte.
    pub fn comment(self, comment: Vec<u8>) -> (r: GzBuilder)
        requires
            self.wf(),
            no_zero(comment@),
        ensures
            r.wf(),
            r.spec_header() == (HeaderView { comment: Some(comment@), ..self.spec_header() }),
    {
        GzBuilder { comment: Some(comment), ..self }
    }

    /// The header bytes, for a stream compressed at `level`.
    pub fn into_header(self, level: Compression) -> (r: Vec<u8>)
        requires
            self.wf(),
        ensures
            r@ == header_bytes(self.spec_header(), level),
    {
        let ghost h = self.spec_header();
        let GzBuilder { extra, filename, comment, operating_system, mtime } = self;
        let flg: u8 = (if extra.is_some() {
            FEXTRA
        } else {
            0u8
        }) | (if filename.is_some() {
            FNAME
        } else {
            0u8
        }) | (if comment.is_some() {
            FCOMMENT
        } else {
            0u8
        });
        let xfl: u8 = if level.level() >= 9 {
            2
        } else if level.level() <= 1 {
            4
        } else {
            0
        };
        let os: u8 = match operating_system {
            Some(os) => os,
            None => 255,
        };
        let mut header: Vec<u8> = Vec::new();
        header.push(0x1f);
        header.push(0x8b);
        header.push(8);
        header.push(flg);
        header.push((mtime % 256) as u8);
        header.push(((mtime / 256) % 256) as u8);
        header.push(((mtime / 65536) % 256) as u8);
        header.push(((mtime / 16777216) % 256) as u8);
        header.push(xfl);
        header.push(os);
        proof {
            lemma_pow256_small();
        }
        let ghost fixed = header@;
        match &extra {
            Some(e) => {
                header.push((e.len() % 256) as u8);
                header.push(((e.len() / 256) % 256) as u8);
                append_bytes(&mut header, e.as_slice());
            },
            None => {},
        }
        let ghost with_extra = header@;
        match &filename {
            Some(f) => {
                append_bytes(&mut header, f.as_slice());
                header.push(0);
            },
            None => {},
        }
        let ghost with_name = header@;
        match &comment {
            Some(c) => {
                append_bytes(&mut header, c.as_slice());
                header.push(0);
            },
            None => {},
        }
        proof {
            assert(fixed =~= seq![
                0x1fu8,
                0x8bu8,
                8u8,
                flags_for(h.extra is Some, h.filename is Some, h.comment is Some),
                byte_of(h.mtime as int, 0),
                byte_of(h.mtime as int, 1),
                byte_of(h.mtime as int, 2),
                byte_of(h.mtime as int, 3),
                xfl_for(level),
                h.operating_system,
            ]);
            assert(with_extra =~= fixed + extra_part(h.extra));
            assert(with_name =~= with_extra + zstr_part(h.filename));
            assert(header@ =~= with_name + zstr_part(h.comment));
        }
        header
    }
}

/// The optional fields fit the header layout.
pub open spec fn valid_fields(h: HeaderView) -> bool {
    &&& (h.extra matches Some(e) ==> e.len() <= 0xffff)
    &&& (h.filename matches Some(f) ==> no_zero(f))
    &&& (h.comment matches Some(c) ==> no_zero(c))
}

/// What a prefix of a byte stream says about the gzip header at its start.
pub enum HeaderParse {
    /// More bytes are needed to decide.
    Incomplete,
    /// The header is malformed.
    Invalid(StreamError),
    /// A valid header with these fields, of this many bytes.
    Complete(HeaderView, nat),
}

/// The little-endian 16-bit value at `s[i..i + 2]`.
pub open spec fn le16(s: Seq<u8>, i: int) -> int {
    s[i] as int + 256 * s[i + 1] as int
}

/// The little-endian 32-bit value at `s[i..i + 4]`.
pub open spec fn le32(s: Seq<u8>, i: int) -> int {
    s[i] as int + 256 * s[i + 1] as int + 65536 * s[i + 2] as int + 16777216 * s[i + 3] as int
}

pub open spec fn has_flag(flg: u8, mask: u8) -> bool {
    flg & mask != 0
}

/// The index of the first zero byte of `s` at or after `from`.
pub open spec fn first_zero(s: Seq<u8>, from: int) -> Option<int>
    decreases s.len() - from,
{
    if from < 0 || from >= s.len() {
        None
    } else if s[from] == 0 {
        Some(from)
    } else {
        first_zero(s, from + 1)
    }
}

/// The extra field and the offset after it, or `None` if `s` ends first.
pub open spec fn extra_field(s: Seq<u8>, flg: u8) -> Option<(Option<Seq<u8>>, int)> {
    if !has_flag(flg, FEXTRA) {
        Some((None, 10))
    } else if s.len() < 12 || s.len() < 12 + le16(s, 10) {
        None
    } else {
        Some((Some(s.subrange(12, 12 + le16(s, 10))), 12 + le16(s, 10)))
    }
}

/// A zero-terminated field at `from` (present if `flg` has `mask`) and the
/// offset after it, or `None` if `s` ends before its zero.
pub open spec fn zstr_field(s: Seq<u8>, flg: u8, mask: u8, from: int) -> Option<
    (Option<Seq<u8>>, int),
> {
    if !has_flag(flg, mask) {
        Some((None, from))
    } else {
        match first_zero(s, from) {
            Some(z) => Some((Some(s.subrange(from, z)), z + 1)),
            None => None,
        }
    }
}

/// The fields recorded in the fixed part and the optional fields given.
pub open spec fn header_view_of(
    s: Seq<u8>,
    extra: Option<Seq<u8>>,
    filename: Option<Seq<u8>>,
    comment: Option<Seq<u8>>,
) -> HeaderView {
    HeaderView { extra, filename, comment, operating_system: s[9], mtime: le32(s, 4) as u32 }
}

/// The fixed part starts with the gzip magic and the DEFLATE method.
pub open spec fn magic_ok(s: Seq<u8>) -> bool {
    s[0] == 0x1f && s[1] == 0x8b && s[2] == 8
}

/// What `s` says about the gzip header at its start (RFC 1952): ten fixed
/// bytes, then the optional extra field, file name, comment and header
/// CRC in that order.
pub open spec fn parse_header(s: Seq<u8>) -> HeaderParse {
    if s.len() < 10 {
        HeaderParse::Incomplete
    } else if !magic_ok(s) {
        HeaderParse::Invalid(StreamError::InvalidHeader)
    } else {
        let flg = s[3];
        match extra_field(s, flg) {
            None => HeaderParse::Incomplete,
            Some((extra, e_end)) => match zstr_field(s, flg, FNAME, e_end) {
                None => HeaderParse::Incomplete,
                Some((filename, n_end)) => match zstr_field(s, flg, FCOMMENT, n_end) {
                    None => HeaderParse::Incomplete,
                    Some((comment, c_end)) => {
                        let view = header_view_of(s, extra, filename, comment);
                        if !has_flag(flg, FHCRC) {
                            HeaderParse::Complete(view, c_end as nat)
                        } else if s.len() < c_end + 2 {
                            HeaderParse::Incomplete
                        } else if le16(s, c_end) != crc32_of(0, s.subrange(0, c_end)) as int % 65536 {
                            HeaderParse::Invalid(StreamError::ChecksumMismatch)
                        } else {
                            HeaderParse::Complete(view, (c_end + 2) as nat)
                        }
                    },
                },
            },
        }
    }
}

/// The part of the header that a parser is reading.
#[derive(Clone, Copy, Debug, PartialEq, Eq, Structural)]
pub enum GzHeaderParsingState {
    Start,
    Xlen,
    Extra,
    Filename,
    Comment,
    Crc,
}

/// What one call of the parser did: how many input bytes it took and
/// whether the header is complete (`Ok(true)`), needs more (`Ok(false)`)
/// or is invalid.
pub struct HeaderProgress {
    pub consumed: usize,
    pub result: Result<bool, StreamError>,
}

/// A gzip header parser that can be fed its input in pieces. It holds
/// every header byte it has taken, so that a field split across calls is
/// completed from the bytes kept and the bytes that follow.
#[derive(Debug)]
pub struct GzHeaderParser {
    buf: Vec<u8>,
    state: GzHeaderParsingState,
    mark: usize,
    flg: u8,
    xlen: u16,
    header: GzHeader,
    done: bool,
}

/// The optional fields that the parser has decoded are those of `s` up to
/// `mark`, for a parser in `state`.
pub open spec fn fields_so_far(
    s: Seq<u8>,
    state: GzHeaderParsingState,
    flg: u8,
    mark: int,
    h: HeaderView,
) -> bool {
    match state {
        GzHeaderParsingState::Start | GzHeaderParsingState::Xlen | GzHeaderParsingState::Extra => {
            &&& h.extra is None
            &&& h.filename is None
            &&& h.comment is None
        },
        GzHeaderParsingState::Filename => {
            &&& extra_field(s, flg) == Some((h.extra, mark))
            &&& h.filename is None
            &&& h.comment is None
        },
        GzHeaderParsingState::Comment => {
            &&& extra_field(s, flg) matches Some((e, e_end))
            &&& e == h.extra
            &&& zstr_field(s, flg, FNAME, e_end) == Some((h.filename, mark))
            &&& h.comment is None
        },
        GzHeaderParsingState::Crc => {
            &&& extra_field(s, flg) matches Some((e, e_end))
            &&& e == h.extra
            &&& zstr_field(s, flg, FNAME, e_end) matches Some((f, n_end))
            &&& f == h.filename
            &&& zstr_field(s, flg, FCOMMENT, n_end) == Some((h.comment, mark))
        },
    }
}

/// The parser waits in `state` for more bytes of the field that starts at
/// `mark`, having taken the bytes `s`.
pub open spec fn waiting(
    s: Seq<u8>,
    state: GzHeaderParsingState,
    flg: u8,
    xlen: u16,
    mark: int,
    h: HeaderView,
) -> bool {
    &&& 0 <= mark <= s.len()
    &&& fields_so_far(s, state, flg, mark, h)
    &&& match state {
        GzHeaderParsingState::Start => s.len() < 10 && mark == 0,
        _ => {
            &&& s.len() >= 10
            &&& magic_ok(s)
            &&& flg == s[3]
            &&& h.mtime == le32(s, 4) as u32
            &&& h.operating_system == s[9]
            &&& match state {
                GzHeaderParsingState::Xlen => has_flag(flg, FEXTRA) && s.len() < 12 && mark == 10,
                GzHeaderParsingState::Extra => {
                    &&& has_flag(flg, FEXTRA)
                    &&& 12 <= s.len() < 12 + xlen
                    &&& xlen == le16(s, 10)
                    &&& mark == 12
                },
                GzHeaderParsingState::Filename => has_flag(flg, FNAME) && first_zero(s, mark)
                    is None,
                GzHeaderParsingState::Comment => has_flag(flg, FCOMMENT) && first_zero(s, mark)
                    is None,
                _ => has_flag(flg, FHCRC) && s.len() < mark + 2,
            }
        },
    }
}

/// Every prefix of `s` leaves the header undecided.
pub open spec fn undecided(s: Seq<u8>) -> bool {
    forall|k: int| 0 <= k <= s.len() ==> #[trigger] parse_header(s.subrange(0, k)) is Incomplete
}

impl GzHeaderParser {
    /// Every byte the parser has taken.
    pub closed spec fn seen(&self) -> Seq<u8> {
        self.buf@
    }

    /// The header has been read completely.
    pub closed spec fn is_done(&self) -> bool {
        self.done
    }

    /// The header fields decoded so far.
    pub closed spec fn spec_header(&self) -> HeaderView {
        self.header@
    }

    pub closed spec fn wf(&self) -> bool {
        &&& self.done ==> parse_header(self.buf@) == HeaderParse::Complete(
            self.header@,
            self.buf@.len(),
        )
        &&& !self.done ==> {
            &&& waiting(
                self.buf@,
                self.state,
                self.flg,
                self.xlen,
                self.mark as int,
                self.header@,
            )
            &&& undecided(self.buf@)
        }
    }

    /// A parser that has taken no bytes yet.
    pub fn new() -> (r: GzHeaderParser)
        ensures
            r.wf(),
            !r.is_done(),
            r.seen() == Seq::<u8>::empty(),
    {
        let r = GzHeaderParser {
            buf: Vec::new(),
            state: GzHeaderParsingState::Start,
            mark: 0,
            flg: 0,
            xlen: 0,
            header: GzHeader {
                extra: None,
                filename: None,
                comment: None,
                operating_system: 0,
                mtime: 0,
            },
            done: false,
        };
        assert(undecided(r.buf@)) by {
            assert forall|k: int| 0 <= k <= r.buf@.len() implies #[trigger] parse_header(
                r.buf@.subrange(0, k),
            ) is Incomplete by {}
        }
        r
    }

    /// The part of the header the parser is reading.
    pub closed spec fn spec_parsing_state(&self) -> GzHeaderParsingState {
        self.state
    }

    /// The part of the header the parser is reading.
    pub fn state(&self) -> (r: GzHeaderParsingState)
        ensures
            r == self.spec_parsing_state(),
    {
        self.state
    }

    /// The header read, once it is complete.
    pub fn header(&self) -> (r: &GzHeader)
        ensures
            r@ == self.spec_header(),
    {
        &self.header
    }

    /// Takes one more header byte and moves on through every part of the
    /// header that is now complete.
    fn absorb(&mut self, b: u8) -> (r: Option<Result<(), StreamError>>)
        requires
            old(self).wf(),
            !old(self).is_done(),
        ensures
            final(self).seen() == old(self).seen().push(b),
            r matches Some(Err(e)) ==> parse_header(final(self).seen()) == HeaderParse::Invalid(e),
            !(r matches Some(Err(_))) ==> final(self).wf(),
            final(self).is_done() <==> (r matches Some(Ok(_))),
    {
        let ghost s0 = self.buf@;
        let ghost h0 = self.header@;
        self.buf.push(b);
        let ghost s = self.buf@;
        let len = self.buf.len();
        proof {
            if self.state != GzHeaderParsingState::Start {
                lemma_fields_push(s0, b, self.state, self.flg, self.mark as int, h0);
                lemma_first_zero_push(s0, b, self.mark as int);
            }
        }
        if self.state == GzHeaderParsingState::Start {
            if len < 10 {
                proof {
                    lemma_undecided_push(s0, b);
                }
                return None;
            }
            if !(self.buf[0] == 0x1f && self.buf[1] == 0x8b && self.buf[2] == 8) {
                return Some(Err(StreamError::InvalidHeader));
            }
            self.flg = self.buf[3];
            self.header.mtime = self.buf[4] as u32 + 256 * (self.buf[5] as u32) + 65536 * (
            self.buf[6] as u32) + 16777216 * (self.buf[7] as u32);
            self.header.operating_system = self.buf[9];
            self.state = GzHeaderParsingState::Xlen;
            self.mark = 10;
        }
        assert(s.len() >= 10 && magic_ok(s) && self.flg == s[3]);
        assert(self.header@.mtime == le32(s, 4) as u32 && self.header@.operating_system == s[9]);
        if self.state == GzHeaderParsingState::Xlen {
            if self.flg & FEXTRA != 0 {
                if len < 12 {
                    proof {
                        lemma_waiting_incomplete(
                            s,
                            self.state,
                            self.flg,
                            self.xlen,
                            self.mark as int,
                            self.header@,
                        );
                        lemma_undecided_push(s0, b);
                    }
                    return None;
                }
                self.xlen = self.buf[10] as u16 + 256 * (self.buf[11] as u16);
                self.mark = 12;
            }
            self.state = GzHeaderParsingState::Extra;
        }
        assert(self.state == GzHeaderParsingState::Extra ==> (self.flg & FEXTRA != 0 ==> (
        self.xlen == le16(s, 10) && self.mark == 12 && len >= 12)) && (self.flg & FEXTRA == 0
            ==> self.mark == 10) && self.header@.extra is None && self.header@.filename is None
            && self.header@.comment is None);
        if self.state == GzHeaderParsingState::Extra {
            if self.flg & FEXTRA != 0 {
                if len < 12 + self.xlen as usize {
                    proof {
                        lemma_waiting_incomplete(
                            s,
                            self.state,
                            self.flg,
                            self.xlen,
                            self.mark as int,
                            self.header@,
                        );
                        lemma_undecided_push(s0, b);
                    }
                    return None;
                }
                let extra = copy_range(&self.buf, 12, len);
                self.header.extra = Some(extra);
                self.mark = len;
            }
            self.state = GzHeaderParsingState::Filename;
            assert(extra_field(s, self.flg) == Some((self.header@.extra, self.mark as int)));
        }
        assert(fields_so_far(s, self.state, self.flg, self.mark as int, self.header@));
        assert(self.state == GzHeaderParsingState::Filename ==> (self.mark == len || (
        old(self).state == GzHeaderParsingState::Filename && first_zero(s0, self.mark as int)
            is None)));
        if self.state == GzHeaderParsingState::Filename {
            let ghost m = self.mark as int;
            if self.flg & FNAME != 0 {
                if len > self.mark && self.buf[len - 1] == 0 {
                    let name = copy_range(&self.buf, self.mark, len - 1);
                    self.header.filename = Some(name);
                    self.mark = len;
                } else {
                    proof {
                        lemma_waiting_incomplete(
                            s,
                            self.state,
                            self.flg,
                            self.xlen,
                            self.mark as int,
                            self.header@,
                        );
                        lemma_undecided_push(s0, b);
                    }
                    return None;
                }
            }
            self.state = GzHeaderParsingState::Comment;
            assert(zstr_field(s, self.flg, FNAME, m) == Some((self.header@.filename, self.mark as int)));
        }
        assert(fields_so_far(s, self.state, self.flg, self.mark as int, self.header@));
        assert(self.state == GzHeaderParsingState::Comment ==> (self.mark == len || (
        old(self).state == GzHeaderParsingState::Comment && first_zero(s0, self.mark as int)
            is None)));
        if self.state == GzHeaderParsingState::Comment {
            let ghost m = self.mark as int;
            if self.flg & FCOMMENT != 0 {
                if len > self.mark && self.buf[len - 1] == 0 {
                    let comment = copy_range(&self.buf, self.mark, len - 1);
                    self.header.comment = Some(comment);
                    self.mark = len;
                } else {
                    proof {
                        lemma_waiting_incomplete(
                            s,
                            self.state,
                            self.flg,
                            self.xlen,
                            self.mark as int,
                            self.header@,
                        );
                        lemma_undecided_push(s0, b);
                    }
                    return None;
                }
            }
            self.state = GzHeaderParsingState::Crc;
            assert(zstr_field(s, self.flg, FCOMMENT, m) == Some((self.header@.comment, self.mark as int)));
        }
        assert(fields_so_far(s, self.state, self.flg, self.mark as int, self.header@));
        assert(self.mark == len || (old(self).state == GzHeaderParsingState::Crc && len
            <= self.mark + 2));
        if self.flg & FHCRC != 0 {
            if len - self.mark < 2 {
                proof {
                    lemma_waiting_incomplete(
                        s,
                        self.state,
                        self.flg,
                        self.xlen,
                        self.mark as int,
                        self.header@,
                    );
                    lemma_undecided_push(s0, b);
                }
                return None;
            }
            let stored: u32 = self.buf[self.mark] as u32 + 256 * (self.buf[self.mark + 1] as u32);
            let (prefix, _) = self.buf.as_slice().split_at(self.mark);
            let mut crc = crate::crc::Crc::new();
            crc.update(prefix);
            if stored != crc.sum() % 65536 {
                return Some(Err(StreamError::ChecksumMismatch));
            }
        }
        self.done = true;
        Some(Ok(()))
    }

    /// Takes header bytes from the front of `input`, never past the end of
    /// the header. The outcome depends only on the bytes taken over all
    /// calls: it is complete or invalid as soon as those bytes decide the
    /// header, and otherwise every byte of `input` was taken.
    pub fn parse(&mut self, input: &[u8]) -> (r: HeaderProgress)
        requires
            old(self).wf(),
            !old(self).is_done(),
        ensures
            r.consumed <= input@.len(),
            final(self).seen() == old(self).seen() + input@.subrange(0, r.consumed as int),
            decided_only_at_end(final(self).seen()),
            match r.result {
                Ok(false) => {
                    &&& r.consumed == input@.len()
                    &&& final(self).wf()
                    &&& !final(self).is_done()
                    &&& parse_header(final(self).seen()) is Incomplete
                },
                Ok(true) => {
                    &&& final(self).wf()
                    &&& final(self).is_done()
                    &&& parse_header(final(self).seen()) == HeaderParse::Complete(
                        final(self).spec_header(),
                        final(self).seen().len(),
                    )
                },
                Err(e) => parse_header(final(self).seen()) == HeaderParse::Invalid(e),
            },
    {
        let mut i: usize = 0;
        while i < input.len()
            invariant
                self.wf(),
                !self.is_done(),
                i <= input@.len(),
                self.seen() == old(self).seen() + input@.subrange(0, i as int),
            decreases input@.len() - i,
        {
            let ghost before = self.seen();
            let step = self.absorb(input[i]);
            i = i + 1;
            assert(self.seen() =~= old(self).seen() + input@.subrange(0, i as int));
            proof {
                lemma_decided_only_at_end_push(before, input@[i - 1]);
            }
            match step {
                None => {},
                Some(Ok(())) => {
                    assert(self.is_done());
                    assert(parse_header(self.seen()) == HeaderParse::Complete(
                        self.spec_header(),
                        self.seen().len(),
                    ));
                    return HeaderProgress { consumed: i, result: Ok(true) };
                },
                Some(Err(e)) => {
                    return HeaderProgress { consumed: i, result: Err(e) };
                },
            }
        }
        proof {
            assert(undecided(self.seen()));
            assert(self.seen().subrange(0, self.seen().len() as int) =~= self.seen());
            lemma_undecided_prefix(self.seen());
        }
        HeaderProgress { consumed: i, result: Ok(false) }
    }

    /// Gives up the parser for the header it read.
    pub fn take_header(self) -> (r: GzHeader)
        ensures
            r@ == self.spec_header(),
    {
        self.header
    }
}

proof fn lemma_first_zero_push(s: Seq<u8>, b: u8, from: int)
    requires
        0 <= from <= s.len(),
    ensures
        first_zero(s, from) matches Some(z) ==> first_zero(s.push(b), from) == Some(z),
        first_zero(s, from) is None ==> first_zero(s.push(b), from) == (if b == 0 {
            Some(s.len() as int)
        } else {
            None
        }),
    decreases s.len() - from,
{
    let t = s.push(b);
    if from < s.len() {
        assert(t[from] == s[from]);
        if s[from] != 0 {
            lemma_first_zero_push(s, b, from + 1);
        }
    } else {
        assert(t[from] == b);
        if b != 0 {
            assert(first_zero(t, from + 1) is None);
        }
    }
}

proof fn lemma_extra_field_push(s: Seq<u8>, b: u8, flg: u8)
    ensures
        extra_field(s, flg) matches Some(x) ==> extra_field(s.push(b), flg) == Some(x),
{
    let t = s.push(b);
    if has_flag(flg, FEXTRA) && s.len() >= 12 && s.len() >= 12 + le16(s, 10) {
        assert(t[10] == s[10] && t[11] == s[11]);
        assert(t.subrange(12, 12 + le16(s, 10)) =~= s.subrange(12, 12 + le16(s, 10)));
    }
}

proof fn lemma_zstr_field_push(s: Seq<u8>, b: u8, flg: u8, mask: u8, from: int)
    requires
        0 <= from <= s.len(),
    ensures
        zstr_field(s, flg, mask, from) matches Some(x) ==> zstr_field(s.push(b), flg, mask, from)
            == Some(x),
{
    lemma_first_zero_push(s, b, from);
    if let Some(z) = first_zero(s, from) {
        lemma_first_zero_range(s, from);
        assert(s.push(b).subrange(from, z) =~= s.subrange(from, z));
    }
}

proof fn lemma_first_zero_range(s: Seq<u8>, from: int)
    ensures
        first_zero(s, from) matches Some(z) ==> from <= z < s.len() && s[z] == 0 && (forall|
            i: int,
        | from <= i < z ==> s[i] != 0),
    decreases s.len() - from,
{
    if 0 <= from < s.len() && s[from] != 0 {
        lemma_first_zero_range(s, from + 1);
    }
}

proof fn lemma_fields_push(
    s: Seq<u8>,
    b: u8,
    state: GzHeaderParsingState,
    flg: u8,
    mark: int,
    h: HeaderView,
)
    requires
        0 <= mark <= s.len(),
        s.len() >= 10,
        fields_so_far(s, state, flg, mark, h),
    ensures
        fields_so_far(s.push(b), state, flg, mark, h),
{
    lemma_extra_field_push(s, b, flg);
    if let Some((e, e_end)) = extra_field(s, flg) {
        lemma_extra_field_range(s, flg);
        lemma_zstr_field_push(s, b, flg, FNAME, e_end);
        if let Some((f, n_end)) = zstr_field(s, flg, FNAME, e_end) {
            lemma_zstr_field_range(s, flg, FNAME, e_end);
            lemma_zstr_field_push(s, b, flg, FCOMMENT, n_end);
        }
    }
}

proof fn lemma_extra_field_range(s: Seq<u8>, flg: u8)
    requires
        s.len() >= 10,
    ensures
        extra_field(s, flg) matches Some((e, p)) ==> 10 <= p <= s.len(),
{
}

proof fn lemma_zstr_field_range(s: Seq<u8>, flg: u8, mask: u8, from: int)
    requires
        0 <= from <= s.len(),
    ensures
        zstr_field(s, flg, mask, from) matches Some((f, p)) ==> from <= p <= s.len(),
{
    lemma_first_zero_range(s, from);
}

/// A parser waiting for more bytes has not decided the header yet.
proof fn lemma_waiting_incomplete(
    s: Seq<u8>,
    state: GzHeaderParsingState,
    flg: u8,
    xlen: u16,
    mark: int,
    h: HeaderView,
)
    requires
        waiting(s, state, flg, xlen, mark, h),
    ensures
        parse_header(s) is Incomplete,
{
}

proof fn lemma_undecided_push(s: Seq<u8>, b: u8)
    requires
        undecided(s),
        parse_header(s.push(b)) is Incomplete,
    ensures
        undecided(s.push(b)),
{
    let t = s.push(b);
    assert forall|k: int| 0 <= k <= t.len() implies #[trigger] parse_header(t.subrange(0, k))
        is Incomplete by {
        if k <= s.len() {
            assert(t.subrange(0, k) =~= s.subrange(0, k));
        } else {
            assert(t.subrange(0, k) =~= t);
        }
    }
}

/// Every proper prefix of `s` leaves the header undecided: a parser that
/// took `s` stopped at the first byte that decided it.
pub open spec fn decided_only_at_end(s: Seq<u8>) -> bool {
    forall|k: int| 0 <= k < s.len() ==> #[trigger] parse_header(s.subrange(0, k)) is Incomplete
}

proof fn lemma_decided_only_at_end_push(s: Seq<u8>, b: u8)
    requires
        undecided(s),
    ensures
        decided_only_at_end(s.push(b)),
{
    let t = s.push(b);
    assert forall|k: int| 0 <= k < t.len() implies #[trigger] parse_header(t.subrange(0, k))
        is Incomplete by {
        assert(t.subrange(0, k) =~= s.subrange(0, k));
    }
}

proof fn lemma_undecided_prefix(s: Seq<u8>)
    requires
        undecided(s),
    ensures
        decided_only_at_end(s),
        parse_header(s) is Incomplete,
{
    assert(s.subrange(0, s.len() as int) =~= s);
}

/// The bytes `v[a..b]`.
pub fn copy_range(v: &Vec<u8>, a: usize, b: usize) -> (r: Vec<u8>)
    requires
        a <= b <= v@.len(),
    ensures
        r@ == v@.subrange(a as int, b as int),
{
    let mut r: Vec<u8> = Vec::new();
    let mut i: usize = a;
    while i < b
        invariant
            a <= i <= b <= v@.len(),
            r@ == v@.subrange(a as int, i as int),
        decreases b - i,
    {
        r.push(v[i]);
        i = i + 1;
        assert(r@ =~= v@.subrange(a as int, i as int));
    }
    r
}

proof fn lemma_first_zero_append(s: Seq<u8>, t: Seq<u8>, from: int)
    ensures
        first_zero(s, from) matches Some(z) ==> first_zero(s + t, from) == Some(z),
    decreases s.len() - from,
{
    if 0 <= from < s.len() {
        assert((s + t)[from] == s[from]);
        if s[from] != 0 {
            lemma_first_zero_append(s, t, from + 1);
        }
    }
}

proof fn lemma_first_zero_at(s: Seq<u8>, from: int, z: int)
    requires
        0 <= from <= z < s.len(),
        s[z] == 0,
        forall|i: int| from <= i < z ==> s[i] != 0,
    ensures
        first_zero(s, from) == Some(z),
    decreases z - from,
{
    if from < z {
        lemma_first_zero_at(s, from + 1, z);
    }
}

/// Once a prefix of a stream decides its gzip header (complete or
/// invalid), no bytes that follow change the decision. A parser fed the
/// same bytes in any chunking therefore stops at the same byte with the
/// same outcome.
pub proof fn lemma_header_decision_stable(s: Seq<u8>, t: Seq<u8>)
    requires
        !(parse_header(s) is Incomplete),
    ensures
        parse_header(s + t) == parse_header(s),
{
    let u = s + t;
    assert(s.len() >= 10);
    assert(u[0] == s[0] && u[1] == s[1] && u[2] == s[2] && u[3] == s[3]);
    assert(u[4] == s[4] && u[5] == s[5] && u[6] == s[6] && u[7] == s[7] && u[9] == s[9]);
    if magic_ok(s) {
        let flg = s[3];
        if has_flag(flg, FEXTRA) {
            assert(u[10] == s[10] && u[11] == s[11]);
            if s.len() >= 12 + le16(s, 10) {
                assert(u.subrange(12, 12 + le16(s, 10)) =~= s.subrange(12, 12 + le16(s, 10)));
            }
        }
        if let Some((e, e_end)) = extra_field(s, flg) {
            assert(extra_field(u, flg) == Some((e, e_end)));
            lemma_first_zero_append(s, t, e_end);
            lemma_first_zero_range(s, e_end);
            if let Some(z) = first_zero(s, e_end) {
                assert(u.subrange(e_end, z) =~= s.subrange(e_end, z));
            }
            if let Some((f, n_end)) = zstr_field(s, flg, FNAME, e_end) {
                assert(zstr_field(u, flg, FNAME, e_end) == Some((f, n_end)));
                lemma_first_zero_append(s, t, n_end);
                lemma_first_zero_range(s, n_end);
                if let Some(z) = first_zero(s, n_end) {
                    assert(u.subrange(n_end, z) =~= s.subrange(n_end, z));
                }
                if let Some((c, c_end)) = zstr_field(s, flg, FCOMMENT, n_end) {
                    assert(zstr_field(u, flg, FCOMMENT, n_end) == Some((c, c_end)));
                    assert(header_view_of(u, e, f, c) == header_view_of(s, e, f, c));
                    if has_flag(flg, FHCRC) && s.len() >= c_end + 2 {
                        lemma_zstr_field_range(s, flg, FCOMMENT, n_end);
                        assert(u[c_end] == s[c_end] && u[c_end + 1] == s[c_end + 1]);
                        assert(u.subrange(0, c_end) =~= s.subrange(0, c_end));
                    }
                }
            }
        }
    }
}

/// A stream whose first ten bytes do not start with the gzip magic
/// `1f 8b` and the DEFLATE method `8` has an invalid header.
pub proof fn lemma_bad_magic_rejected(s: Seq<u8>)
    requires
        s.len() >= 10,
        s[0] != 0x1f || s[1] != 0x8b || s[2] != 8,
    ensures
        parse_header(s) == HeaderParse::Invalid(StreamError::InvalidHeader),
{
}

proof fn lemma_flag_bits(a: u8, b: u8, c: u8)
    requires
        a == 0 || a == 4,
        b == 0 || b == 8,
        c == 0 || c == 16,
    ensures
        ((a | b | c) & 4u8 != 0) == (a == 4),
        ((a | b | c) & 8u8 != 0) == (b == 8),
        ((a | b | c) & 16u8 != 0) == (c == 16),
        (a | b | c) & 2u8 == 0,
{
    assert(((a | b | c) & 4u8 != 0) == (a == 4)) by (bit_vector)
        requires
            a == 0 || a == 4,
            b == 0 || b == 8,
            c == 0 || c == 16,
    ;
    assert(((a | b | c) & 8u8 != 0) == (b == 8)) by (bit_vector)
        requires
            a == 0 || a == 4,
            b == 0 || b == 8,
            c == 0 || c == 16,
    ;
    assert(((a | b | c) & 16u8 != 0) == (c == 16)) by (bit_vector)
        requires
            a == 0 || a == 4,
            b == 0 || b == 8,
            c == 0 || c == 16,
    ;
    assert((a | b | c) & 2u8 == 0) by (bit_vector)
        requires
            a == 0 || a == 4,
            b == 0 || b == 8,
            c == 0 || c == 16,
    ;
}

proof fn lemma_le32_bytes(x: u32)
    ensures
        byte_of(x as int, 0) as int + 256 * byte_of(x as int, 1) as int + 65536 * byte_of(
            x as int,
            2,
        ) as int + 16777216 * byte_of(x as int, 3) as int == x,
{
    lemma_pow256_small();
    assert(x % 256 + 256 * ((x / 256) % 256) + 65536 * ((x / 65536) % 256) + 16777216 * ((x
        / 16777216) % 256) == x) by (bit_vector);
}

proof fn lemma_le16_bytes(n: int)
    requires
        0 <= n <= 0xffff,
    ensures
        byte_of(n, 0) as int + 256 * byte_of(n, 1) as int == n,
{
    lemma_pow256_small();
    let x = n as u16;
    assert(x % 256 + 256 * ((x / 256) % 256) == x) by (bit_vector);
}

/// The bytes that the builder writes for a header read back as that
/// header, with the optional fields it was given.
pub proof fn lemma_header_round_trip(h: HeaderView, level: Compression)
    requires
        valid_fields(h),
    ensures
        parse_header(header_bytes(h, level)) == HeaderParse::Complete(
            h,
            header_bytes(h, level).len(),
        ),
{
    let ea: u8 = if h.extra is Some { FEXTRA } else { 0u8 };
    let na: u8 = if h.filename is Some { FNAME } else { 0u8 };
    let ca: u8 = if h.comment is Some { FCOMMENT } else { 0u8 };
    lemma_flag_bits(ea, na, ca);
    let fixed = seq![
        0x1fu8,
        0x8bu8,
        8u8,
        flags_for(h.extra is Some, h.filename is Some, h.comment is Some),
        byte_of(h.mtime as int, 0),
        byte_of(h.mtime as int, 1),
        byte_of(h.mtime as int, 2),
        byte_of(h.mtime as int, 3),
        xfl_for(level),
        h.operating_system,
    ];
    let ep = extra_part(h.extra);
    let np = zstr_part(h.filename);
    let cp = zstr_part(h.comment);
    let s = header_bytes(h, level);
    assert(s == fixed + ep + np + cp);
    let flg = s[3];
    assert(flg == flags_for(h.extra is Some, h.filename is Some, h.comment is Some));
    assert(magic_ok(s));
    lemma_le32_bytes(h.mtime);
    assert(le32(s, 4) == h.mtime);
    let e_end: int = 10 + ep.len() as int;
    let n_end: int = e_end + np.len() as int;
    let c_end: int = n_end + cp.len() as int;
    assert(s.len() == c_end);
    match h.extra {
        Some(e) => {
            lemma_le16_bytes(e.len() as int);
            assert(s[10] == ep[0] && s[11] == ep[1]);
            assert(le16(s, 10) == e.len());
            assert(s.subrange(12, 12 + le16(s, 10)) =~= e);
        },
        None => {},
    }
    assert(extra_field(s, flg) == Some((h.extra, e_end as int)));
    match h.filename {
        Some(f) => {
            assert forall|i: int| e_end <= i < e_end + f.len() implies s[i] != 0 by {
                assert(s[i] == f[i - e_end]);
            }
            assert(s[e_end + f.len()] == 0);
            lemma_first_zero_at(s, e_end as int, e_end + f.len());
            assert(s.subrange(e_end as int, e_end + f.len()) =~= f);
        },
        None => {},
    }
    assert(zstr_field(s, flg, FNAME, e_end as int) == Some((h.filename, n_end as int)));
    match h.comment {
        Some(c) => {
            assert forall|i: int| n_end <= i < n_end + c.len() implies s[i] != 0 by {
                assert(s[i] == c[i - n_end]);
            }
            assert(s[n_end + c.len()] == 0);
            lemma_first_zero_at(s, n_end as int, n_end + c.len());
            assert(s.subrange(n_end as int, n_end + c.len()) =~= c);
        },
        None => {},
    }
    assert(zstr_field(s, flg, FCOMMENT, n_end as int) == Some((h.comment, c_end as int)));
    assert(header_view_of(s, h.extra, h.filename, h.comment) == h);
}

pub proof fn lemma_pow256_small()
    ensures
        pow256(0) == 1,
        pow256(1) == 256,
        pow256(2) == 65536,
        pow256(3) == 16777216,
{
    reveal_with_fuel(pow256, 4);
}

} // verus!
