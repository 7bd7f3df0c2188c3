use flate2::error::StreamError;
use flate2::gzip::{DecodeAction, EncodeAction, GzDecoder, GzEncoder};
use flate2::header::GzBuilder;
use flate2::zio::{read, Ops, ReadAction, WriteAction, Writer};
use flate2::{Compress, Compression, Decompress};
use rand::Rng;

fn random_bytes(n: usize) -> Vec<u8> {
    let mut rng = rand::rng();
    (0..n).map(|_| rng.random::<u8>()).collect()
}

fn dump<D: Ops>(w: &mut Writer<Vec<u8>, D>) {
    let (sink, pending) = w.sink_and_pending();
    sink.extend_from_slice(pending);
    w.clear_pending();
}

fn write_all<D: Ops>(w: &mut Writer<Vec<u8>, D>, mut data: &[u8]) -> Result<(), StreamError> {
    while !data.is_empty() {
        dump(w);
        match w.write(data) {
            (_, WriteAction::Retry) => continue,
            (0, WriteAction::Done(_)) => return Ok(()),
            (n, WriteAction::Done(_)) => data = &data[n..],
            (_, WriteAction::Corrupt) => return Err(StreamError::CorruptDeflate),
        }
    }
    Ok(())
}

fn finish_into<D: Ops>(w: &mut Writer<Vec<u8>, D>) -> Result<(), StreamError> {
    loop {
        dump(w);
        match w.finish() {
            Ok(true) => continue,
            Ok(false) => break,
            Err(_) => return Err(StreamError::CorruptDeflate),
        }
    }
    dump(w);
    Ok(())
}

fn finish<D: Ops>(mut w: Writer<Vec<u8>, D>) -> Result<Vec<u8>, StreamError> {
    finish_into(&mut w)?;
    Ok(w.into_inner())
}

fn read_to_end<D: Ops>(data: &mut D, src: &[u8]) -> Result<Vec<u8>, StreamError> {
    let mut pos = 0;
    let mut out = Vec::new();
    let mut buf = vec![0u8; 4096];
    loop {
        let step = read(data, &src[pos..], &mut buf);
        pos += step.consumed;
        match step.action {
            ReadAction::Retry => continue,
            ReadAction::Done(0) => return Ok(out),
            ReadAction::Done(n) => out.extend_from_slice(&buf[..n]),
            ReadAction::Corrupt => return Err(StreamError::CorruptDeflate),
        }
    }
}

fn encode(v: &[u8], zlib: bool) -> Vec<u8> {
    let mut w = Writer::new(Vec::new(), Compress::new(Compression::default(), zlib));
    write_all(&mut w, v).unwrap();
    finish(w).unwrap()
}

fn gz_decode(src: &[u8]) -> Result<Vec<u8>, StreamError> {
    let mut d = GzDecoder::new(false);
    let mut pos = 0;
    let mut out = Vec::new();
    let mut buf = vec![0u8; 4096];
    loop {
        let input: &[u8] = if d.needs_input(buf.len()) { &src[pos..] } else { &[] };
        let step = d.read_step(input, &mut buf);
        pos += step.consumed;
        match step.action {
            DecodeAction::Retry => {}
            DecodeAction::Done(0) => return Ok(out),
            DecodeAction::Done(n) => out.extend_from_slice(&buf[..n]),
            DecodeAction::Fail(e) => return Err(e),
        }
    }
}

fn gz_encode_read(v: &[u8]) -> Vec<u8> {
    let level = Compression::default();
    let mut e = GzEncoder::new(GzBuilder::new().into_header(level), level);
    let mut pos = 0;
    let mut out = Vec::new();
    let mut buf = vec![0u8; 4096];
    loop {
        let step = e.read_step(&v[pos..], &mut buf);
        pos += step.consumed;
        match step.action {
            EncodeAction::Retry => {}
            EncodeAction::Done(0) => return out,
            EncodeAction::Done(n) => out.extend_from_slice(&buf[..n]),
            EncodeAction::Fail(e) => panic!("{:?}", e),
        }
    }
}

fn writes_in_pieces(zlib: bool) -> (Vec<u8>, Vec<u8>, Vec<u8>) {
    let mut real = Vec::new();
    let mut w = Writer::new(Vec::new(), Compress::new(Compression::default(), zlib));
    let v = random_bytes(1024);
    for _ in 0..200 {
        let to_write = &v[..rand::rng().random_range(0..v.len())];
        real.extend(to_write.iter().copied());
        write_all(&mut w, to_write).unwrap();
    }
    (real, finish(w).unwrap(), v)
}

#[test]
fn deflate_roundtrip() {
    let (real, result, _) = writes_in_pieces(false);
    let mut d = Decompress::new(false);
    assert_eq!(read_to_end(&mut d, &result).unwrap(), real);
}

#[test]
fn zlib_roundtrip() {
    let (real, result, _) = writes_in_pieces(true);
    let mut d = Decompress::new(true);
    assert_eq!(read_to_end(&mut d, &result).unwrap(), real);
}

#[test]
fn deflate_total_in() {
    let (real, mut result, v) = writes_in_pieces(false);
    let result_len = result.len();
    for _ in 0..200 {
        result.extend(v.iter().copied());
    }
    let mut d = Decompress::new(false);
    assert_eq!(read_to_end(&mut d, &result).unwrap(), real);
    assert_eq!(d.total_in(), result_len as u64);
}

#[test]
fn mod_total_in() {
    let (real, mut result, v) = writes_in_pieces(true);
    let result_len = result.len();
    for _ in 0..200 {
        result.extend(v.iter().copied());
    }
    let mut d = Decompress::new(true);
    assert_eq!(read_to_end(&mut d, &result).unwrap(), real);
    assert_eq!(d.total_in(), result_len as u64);
}

#[test]
fn deflate_roundtrip2() {
    let v = random_bytes(1024 * 1024);
    let mut c = Compress::new(Compression::default(), false);
    let compressed = read_to_end(&mut c, &v).unwrap();
    let mut d = Decompress::new(false);
    assert_eq!(read_to_end(&mut d, &compressed).unwrap(), v);
}

#[test]
fn mod_roundtrip2() {
    let v = random_bytes(1024 * 1024);
    let mut c = Compress::new(Compression::default(), true);
    let compressed = read_to_end(&mut c, &v).unwrap();
    let mut d = Decompress::new(true);
    assert_eq!(read_to_end(&mut d, &compressed).unwrap(), v);
}

fn write_through_both(zlib: bool) {
    let v = random_bytes(1024 * 1024);
    let compressed = encode(&v, zlib);
    let mut d = Writer::new(Vec::new(), Decompress::new(zlib));
    write_all(&mut d, &compressed).unwrap();
    assert_eq!(finish(d).unwrap(), v);
}

#[test]
fn deflate_roundtrip3() {
    write_through_both(false);
}

#[test]
fn mod_roundtrip3() {
    write_through_both(true);
}

#[test]
fn reset_writer() {
    let v = random_bytes(1024 * 1024);
    let mut w = Writer::new(Vec::new(), Compress::new(Compression::default(), false));
    write_all(&mut w, &v).unwrap();
    finish_into(&mut w).unwrap();
    w.data_mut().reset();
    let a = w.replace(Vec::new());
    write_all(&mut w, &v).unwrap();
    let b = finish(w).unwrap();
    let c = encode(&v, false);
    assert!(a == b && b == c);
}

#[test]
fn reset_reader() {
    let v = random_bytes(1024 * 1024);
    let mut c = Compress::new(Compression::default(), false);
    let a = read_to_end(&mut c, &v).unwrap();
    c.reset();
    let b = read_to_end(&mut c, &v).unwrap();
    let mut c2 = Compress::new(Compression::default(), false);
    let c = read_to_end(&mut c2, &v).unwrap();
    assert!(a == b && b == c);
}

fn reset_decoder_for(zlib: bool) {
    let v = random_bytes(1024 * 1024);
    let data = encode(&v, zlib);
    {
        let mut r = Decompress::new(zlib);
        let a = read_to_end(&mut r, &data).unwrap();
        r.reset(zlib);
        let b = read_to_end(&mut r, &data).unwrap();
        let mut r = Decompress::new(zlib);
        let c = read_to_end(&mut r, &data).unwrap();
        assert!(a == b && b == c && c == v);
    }
    {
        let mut w = Writer::new(Vec::new(), Decompress::new(zlib));
        write_all(&mut w, &data).unwrap();
        finish_into(&mut w).unwrap();
        w.data_mut().reset(zlib);
        let a = w.replace(Vec::new());
        write_all(&mut w, &data).unwrap();
        let b = finish(w).unwrap();
        let mut w = Writer::new(Vec::new(), Decompress::new(zlib));
        write_all(&mut w, &data).unwrap();
        let c = finish(w).unwrap();
        assert!(a == b && b == c && c == v);
    }
}

#[test]
fn deflate_reset_decoder() {
    reset_decoder_for(false);
}

#[test]
fn mod_reset_decoder() {
    reset_decoder_for(true);
}

#[test]
fn zero_length_read_with_data() {
    let m = vec![3u8; 128 * 1024 + 1];
    let mut c = Compress::new(Compression::default(), false);
    let result = read_to_end(&mut c, &m).unwrap();
    let mut d = Decompress::new(false);
    let mut data: Vec<u8> = Vec::new();
    let step = read(&mut d, &result, &mut data);
    assert_eq!(step.action, ReadAction::Done(0));
}

#[test]
fn gz_roundtrip_big() {
    let mut real = Vec::new();
    let level = Compression::default();
    let mut w = flate2::gzip::GzWriter::new(Vec::new(), GzBuilder::new().into_header(level), level);
    let header = w.header_pending().to_vec();
    w.inner_mut().get_mut().unwrap().extend_from_slice(&header);
    w.header_written();
    let v = random_bytes(1024);
    for _ in 0..200 {
        let mut to_write = &v[..rand::rng().random_range(0..v.len())];
        real.extend(to_write.iter().copied());
        while !to_write.is_empty() {
            dump(w.inner_mut());
            match w.write(to_write) {
                (_, WriteAction::Retry) => {}
                (n, WriteAction::Done(_)) => to_write = &to_write[n..],
                (_, WriteAction::Corrupt) => panic!("corrupt"),
            }
        }
    }
    finish_into(w.inner_mut()).unwrap();
    let trailer = w.trailer();
    let mut result = w.into_inner().into_inner();
    result.extend_from_slice(&trailer);
    assert_eq!(gz_decode(&result).unwrap(), real);
}

#[test]
fn gz_roundtrip_big2() {
    let v = random_bytes(1024 * 1024);
    assert_eq!(gz_decode(&gz_encode_read(&v)).unwrap(), v);
}
