use flate2::error::{ErrorKind, StreamError};
use flate2::gzip::{DecodeAction, EncodeAction, GzDecoder, GzEncoder, GzWriter};
use flate2::header::{GzBuilder, GzHeader, GzHeaderParser, GzHeaderParsingState};
use flate2::zio::WriteAction;
use flate2::Compression;

/// Decodes `src`, handing the decoder at most `chunk` bytes per look at the
/// source; returns the output and the header of the last member.
fn decode(src: &[u8], multi: bool, chunk: usize) -> Result<(Vec<u8>, Option<GzHeader>), StreamError> {
    let mut d = GzDecoder::new(multi);
    let mut pos: usize = 0;
    let mut out = Vec::new();
    let mut buf = [0u8; 37];
    loop {
        let end = std::cmp::min(src.len(), pos.saturating_add(chunk));
        let input: &[u8] = if d.needs_input(buf.len()) { &src[pos..end] } else { &[] };
        let step = d.read_step(input, &mut buf);
        pos += step.consumed;
        match step.action {
            DecodeAction::Retry => {}
            DecodeAction::Done(0) => return Ok((out, d.header().cloned())),
            DecodeAction::Done(n) => out.extend_from_slice(&buf[..n]),
            DecodeAction::Fail(e) => return Err(e),
        }
    }
}

/// Compresses `data` with a read-driven encoder that writes `header` first.
fn encode_read(data: &[u8], header: Vec<u8>, level: Compression) -> Vec<u8> {
    let mut e = GzEncoder::new(header, level);
    let mut pos = 0;
    let mut out = Vec::new();
    let mut buf = [0u8; 29];
    loop {
        let step = e.read_step(&data[pos..], &mut buf);
        pos += step.consumed;
        match step.action {
            EncodeAction::Retry => {}
            EncodeAction::Done(0) => return out,
            EncodeAction::Done(n) => out.extend_from_slice(&buf[..n]),
            EncodeAction::Fail(e) => panic!("{:?}", e),
        }
    }
}

fn dump(w: &mut GzWriter<Vec<u8>>) {
    let header = w.header_pending().to_vec();
    if !header.is_empty() {
        w.inner_mut().get_mut().unwrap().extend_from_slice(&header);
        w.header_written();
    }
    let bytes = w.inner().pending().to_vec();
    let inner = w.inner_mut();
    inner.get_mut().unwrap().extend_from_slice(&bytes);
    inner.clear_pending();
}

/// Compresses `data` with a write-driven encoder.
fn encode_write(data: &[u8], level: Compression) -> Vec<u8> {
    let mut w = GzWriter::new(Vec::new(), GzBuilder::new().into_header(level), level);
    let mut rest = data;
    while !rest.is_empty() {
        dump(&mut w);
        match w.write(&rest[..std::cmp::min(rest.len(), 1000)]) {
            (_, WriteAction::Retry) => {}
            (n, WriteAction::Done(_)) => rest = &rest[n..],
            (_, WriteAction::Corrupt) => panic!("corrupt"),
        }
    }
    loop {
        dump(&mut w);
        if !w.inner_mut().finish().unwrap() {
            break;
        }
    }
    dump(&mut w);
    let trailer = w.trailer();
    let mut out = w.into_inner().into_inner();
    out.extend_from_slice(&trailer);
    out
}

fn gzip(data: &[u8]) -> Vec<u8> {
    encode_write(data, Compression::default())
}

#[test]
fn gz_roundtrip() {
    let inner = gzip(b"foo bar baz");
    let (out, header) = decode(&inner, false, usize::MAX).unwrap();
    assert_eq!(out, b"foo bar baz");
    let header = header.unwrap();
    assert_eq!(header.filename(), None);
    assert_eq!(header.comment(), None);
    assert_eq!(header.extra(), None);
}

#[test]
fn gz_roundtrip_zero() {
    let inner = gzip(b"");
    let (out, _) = decode(&inner, false, usize::MAX).unwrap();
    assert_eq!(out, b"");
}

#[test]
fn gz_fields() {
    let r = vec![0, 2, 4, 6];
    let header = GzBuilder::new()
        .filename(b"foo.rs".to_vec())
        .comment(b"bar".to_vec())
        .extra(vec![0, 1, 2, 3])
        .into_header(Compression::default());
    let e = encode_read(&r, header, Compression::default());
    let (res, header) = decode(&e, false, usize::MAX).unwrap();
    let header = header.unwrap();
    assert_eq!(header.filename(), Some(&b"foo.rs"[..]));
    assert_eq!(header.comment(), Some(&b"bar"[..]));
    assert_eq!(header.extra(), Some(&b"\x00\x01\x02\x03"[..]));
    assert_eq!(res, vec![0, 2, 4, 6]);
}

#[test]
fn gz_keep_reading_after_end() {
    let inner = gzip(b"foo bar baz");
    let mut d = GzDecoder::new(false);
    let mut pos = 0;
    let mut out = Vec::new();
    let mut buf = [0u8; 64];
    let mut zeros = 0;
    while zeros < 3 {
        let input: &[u8] = if d.needs_input(buf.len()) { &inner[pos..] } else { &[] };
        let step = d.read_step(input, &mut buf);
        pos += step.consumed;
        match step.action {
            DecodeAction::Retry => {}
            DecodeAction::Done(0) => zeros += 1,
            DecodeAction::Done(n) => out.extend_from_slice(&buf[..n]),
            DecodeAction::Fail(e) => panic!("{:?}", e),
        }
    }
    assert_eq!(out, b"foo bar baz");
}

#[test]
fn gz_multi_member() {
    let mut both = gzip(b"abc");
    both.extend_from_slice(&gzip(b"def"));
    assert_eq!(decode(&both, true, usize::MAX).unwrap().0, b"abcdef");
    assert_eq!(decode(&both, false, usize::MAX).unwrap().0, b"abc");
}

#[test]
fn gz_one_byte_at_a_time() {
    let data: Vec<u8> = (0..3000u32).map(|i| (i % 97) as u8).collect();
    let header = GzBuilder::new().filename(b"data.bin".to_vec()).comment(b"c".to_vec()).into_header(Compression::best());
    let inner = encode_read(&data, header, Compression::best());
    let (slow, h1) = decode(&inner, false, 1).unwrap();
    let (fast, h2) = decode(&inner, false, usize::MAX).unwrap();
    assert_eq!(slow, data);
    assert_eq!(fast, data);
    assert_eq!(h1, h2);
    assert_eq!(h1.unwrap().filename(), Some(&b"data.bin"[..]));
}

#[test]
fn gz_trailer_length_incremented() {
    let mut inner = gzip(b"foo bar baz");
    let n = inner.len();
    inner[n - 4] = inner[n - 4].wrapping_add(1);
    let e = decode(&inner, false, usize::MAX).unwrap_err();
    assert_eq!(e, StreamError::ChecksumMismatch);
    assert_eq!(e.kind(), ErrorKind::InvalidInput);
    assert_eq!(e.message(), "corrupt gzip stream does not have a matching checksum");
}

#[test]
fn gz_trailer_any_bit_flipped() {
    let inner = gzip(b"hello hello hello");
    let n = inner.len();
    for i in n - 8..n {
        for bit in 0..8 {
            let mut t = inner.clone();
            t[i] ^= 1 << bit;
            assert_eq!(decode(&t, false, usize::MAX).unwrap_err(), StreamError::ChecksumMismatch);
        }
    }
}

#[test]
fn gz_bad_magic() {
    let mut inner = gzip(b"x");
    inner[1] = 0x8c;
    let e = decode(&inner, false, usize::MAX).unwrap_err();
    assert_eq!(e, StreamError::InvalidHeader);
    assert_eq!(e.message(), "invalid gzip header");
    let mut inner = gzip(b"x");
    inner[2] = 7;
    assert_eq!(decode(&inner, false, usize::MAX).unwrap_err(), StreamError::InvalidHeader);
    assert_eq!(decode(&[0u8, 0], false, usize::MAX).unwrap_err(), StreamError::InvalidHeader);
}

#[test]
fn gz_truncated() {
    let inner = gzip(b"some text that is long enough to matter");
    for cut in 0..inner.len() {
        let e = decode(&inner[..cut], false, usize::MAX).unwrap_err();
        if cut < 10 {
            assert_eq!(e, StreamError::InvalidHeader);
        } else {
            assert!(e == StreamError::UnexpectedEof || e == StreamError::CorruptDeflate, "{:?}", e);
        }
        assert!(e.kind() == ErrorKind::InvalidInput || e.kind() == ErrorKind::UnexpectedEof);
    }
    assert_eq!(decode(&inner[..inner.len() - 1], false, usize::MAX).unwrap_err().kind(), ErrorKind::UnexpectedEof);
}

#[test]
fn empty_error_once() {
    let mut d = GzDecoder::new(false);
    let mut buf = [0u8; 8];
    let first = d.read_step(&[], &mut buf);
    assert_eq!(first.action, DecodeAction::Fail(StreamError::InvalidHeader));
    let second = d.read_step(&[], &mut buf);
    assert_eq!(second.action, DecodeAction::Done(0));
}

#[test]
fn gz_trailing_garbage_in_multi_member() {
    let mut data = gzip(b"abc");
    data.extend_from_slice(b"garbage!!!!!");
    assert_eq!(decode(&data, true, usize::MAX).unwrap_err(), StreamError::InvalidHeader);
    assert_eq!(decode(&data, false, usize::MAX).unwrap().0, b"abc");
}

#[test]
fn header_builder_layout() {
    let h = GzBuilder::new().mtime(0x01020304).operating_system(3).into_header(Compression::best());
    assert_eq!(h, vec![0x1f, 0x8b, 8, 0, 4, 3, 2, 1, 2, 3]);
    let h = GzBuilder::new().into_header(Compression::fast());
    assert_eq!(h, vec![0x1f, 0x8b, 8, 0, 0, 0, 0, 0, 4, 255]);
    let h = GzBuilder::new().extra(vec![9, 9]).filename(b"a".to_vec()).into_header(Compression::new(5));
    assert_eq!(h, vec![0x1f, 0x8b, 8, 12, 0, 0, 0, 0, 0, 255, 2, 0, 9, 9, b'a', 0]);
}

#[test]
fn header_parser_in_pieces() {
    let bytes = GzBuilder::new()
        .mtime(77)
        .extra(vec![5; 300])
        .filename(b"name".to_vec())
        .comment(b"comment".to_vec())
        .into_header(Compression::default());
    let mut p = GzHeaderParser::new();
    let mut taken = 0;
    for chunk in bytes.chunks(7) {
        let progress = p.parse(chunk);
        taken += progress.consumed;
        if progress.result == Ok(true) {
            break;
        }
        assert_eq!(progress.result, Ok(false));
        assert_eq!(progress.consumed, chunk.len());
    }
    assert_eq!(taken, bytes.len());
    assert_eq!(p.state(), GzHeaderParsingState::Crc);
    let h = p.take_header();
    assert_eq!(h.mtime(), 77);
    assert_eq!(h.extra().map(|e| e.len()), Some(300));
    assert_eq!(h.filename(), Some(&b"name"[..]));
    assert_eq!(h.comment(), Some(&b"comment"[..]));
    assert_eq!(h.operating_system(), 255);
}

#[test]
fn header_parser_stops_at_header_end() {
    let mut bytes = GzBuilder::new().filename(b"f".to_vec()).into_header(Compression::default());
    let len = bytes.len();
    bytes.extend_from_slice(&[1, 2, 3]);
    let mut p = GzHeaderParser::new();
    let progress = p.parse(&bytes);
    assert_eq!(progress.result, Ok(true));
    assert_eq!(progress.consumed, len);
}

#[test]
fn header_crc_checked() {
    let mut bytes = vec![0x1f, 0x8b, 8, 2, 0, 0, 0, 0, 0, 255];
    let mut c = flate2::Crc::new();
    c.update(&bytes);
    let sum = c.sum();
    bytes.push((sum & 0xff) as u8);
    bytes.push(((sum >> 8) & 0xff) as u8);
    let mut p = GzHeaderParser::new();
    assert_eq!(p.parse(&bytes).result, Ok(true));
    bytes[10] ^= 1;
    let mut p = GzHeaderParser::new();
    assert_eq!(p.parse(&bytes).result, Err(StreamError::ChecksumMismatch));
}

#[test]
fn header_mtime_as_datetime() {
    let mut p = GzHeaderParser::new();
    p.parse(&GzBuilder::new().into_header(Compression::default()));
    assert_eq!(p.header().mtime_as_datetime(), None);
    let mut p = GzHeaderParser::new();
    p.parse(&GzBuilder::new().mtime(1).into_header(Compression::default()));
    assert_eq!(
        p.header().mtime_as_datetime(),
        Some(std::time::UNIX_EPOCH + std::time::Duration::from_secs(1))
    );
}

#[test]
fn gz_levels_round_trip() {
    let data: Vec<u8> = (0..20000u32).map(|i| ((i / 3) % 256) as u8).collect();
    let mut sizes = Vec::new();
    for level in [Compression::none(), Compression::fast(), Compression::default(), Compression::best()] {
        let inner = encode_write(&data, level);
        sizes.push(inner.len());
        assert_eq!(decode(&inner, false, 1000).unwrap().0, data);
        let inner = encode_read(&data, GzBuilder::new().into_header(level), level);
        assert_eq!(decode(&inner, true, 5).unwrap().0, data);
    }
    assert!(sizes[0] > data.len());
    assert!(sizes[3] < data.len() / 4);
}

#[test]
fn quickcheck_gz_round_trip() {
    fn prop(v: Vec<u8>) -> bool {
        let inner = encode_read(&v, GzBuilder::new().into_header(Compression::default()), Compression::default());
        decode(&inner, false, 3).unwrap().0 == v
    }
    quickcheck::quickcheck(prop as fn(Vec<u8>) -> bool);
}
