use flate2::error::{ErrorKind, StreamError};
use flate2::zio::{read, ReadAction, WriteAction, Writer};
use flate2::{Compress, Compression, Decompress};

fn dump<D: flate2::zio::Ops>(w: &mut Writer<Vec<u8>, D>) {
    let bytes = w.pending().to_vec();
    w.get_mut().unwrap().extend_from_slice(&bytes);
    w.clear_pending();
}

fn write_all<D: flate2::zio::Ops>(w: &mut Writer<Vec<u8>, D>, mut data: &[u8]) -> Result<(), StreamError> {
    while !data.is_empty() {
        dump(w);
        match w.write(data) {
            (_, WriteAction::Retry) => continue,
            (n, WriteAction::Done(_)) => {
                if n == 0 {
                    return Ok(());
                }
                data = &data[n..];
            }
            (_, WriteAction::Corrupt) => return Err(StreamError::CorruptDeflate),
        }
    }
    Ok(())
}

fn finish<D: flate2::zio::Ops>(mut w: Writer<Vec<u8>, D>) -> Result<Vec<u8>, StreamError> {
    loop {
        dump(&mut w);
        match w.finish() {
            Ok(true) => continue,
            Ok(false) => break,
            Err(_) => return Err(StreamError::CorruptDeflate),
        }
    }
    dump(&mut w);
    Ok(w.into_inner())
}

fn read_all<D: flate2::zio::Ops>(data: &mut D, src: &[u8]) -> Result<Vec<u8>, StreamError> {
    let mut pos = 0;
    let mut out = Vec::new();
    let mut buf = [0u8; 100];
    loop {
        let step = read(data, &src[pos..], &mut buf);
        pos += step.consumed;
        match step.action {
            ReadAction::Retry => continue,
            ReadAction::Done(0) => return Ok(out),
            ReadAction::Done(n) => out.extend_from_slice(&buf[..n]),
            ReadAction::Corrupt => return Err(StreamError::CorruptDeflate),
        }
    }
}

fn sample(len: usize) -> Vec<u8> {
    (0..len).map(|i| ((i * 7 + i / 13) % 251) as u8).collect()
}

#[test]
fn bad_input() {
    // regress tests: previously caused a panic on drop
    let out: Vec<u8> = Vec::new();
    let data: Vec<u8> = (0..255).cycle().take(1024).collect();
    let mut w = Writer::new(out, Decompress::new(true));
    match write_all(&mut w, &data[..]) {
        Ok(_) => panic!("Expected an error to be returned!"),
        Err(e) => assert_eq!(e.kind(), ErrorKind::InvalidInput),
    }
}

#[test]
fn zlib_write_then_read_round_trip() {
    let v = sample(100_000);
    for level in [Compression::none(), Compression::fast(), Compression::default(), Compression::best()] {
        let mut w = Writer::new(Vec::new(), Compress::new(level, true));
        write_all(&mut w, &v).unwrap();
        let compressed = finish(w).unwrap();
        assert_eq!(compressed[0] & 0x0f, 8);
        let mut d = Decompress::new(true);
        assert_eq!(read_all(&mut d, &compressed).unwrap(), v);
    }
}

#[test]
fn deflate_write_then_write_round_trip() {
    let v = sample(50_000);
    let mut w = Writer::new(Vec::new(), Compress::new(Compression::default(), false));
    write_all(&mut w, &v).unwrap();
    let compressed = finish(w).unwrap();
    assert!(compressed.len() < v.len());
    let mut d = Writer::new(Vec::new(), Decompress::new(false));
    write_all(&mut d, &compressed).unwrap();
    assert_eq!(finish(d).unwrap(), v);
}

#[test]
fn read_driven_compress_round_trip() {
    let v = sample(20_000);
    let mut c = Compress::new(Compression::fast(), true);
    let compressed = read_all(&mut c, &v).unwrap();
    let mut d = Decompress::new(true);
    assert_eq!(read_all(&mut d, &compressed).unwrap(), v);
}

#[test]
fn corrupt_deflate_on_read() {
    let data: Vec<u8> = (0..255).cycle().take(1024).collect();
    let mut d = Decompress::new(true);
    let e = read_all(&mut d, &data).unwrap_err();
    assert_eq!(e, StreamError::CorruptDeflate);
    assert_eq!(e.kind(), ErrorKind::InvalidInput);
    assert_eq!(e.message(), "corrupt deflate stream");
}

#[test]
fn writer_replace_and_take() {
    let mut w = Writer::new(vec![1u8], Compress::new(Compression::default(), true));
    assert!(w.is_present());
    let old = w.replace(vec![2u8]);
    assert_eq!(old, vec![1u8]);
    assert_eq!(w.get_ref(), Some(&vec![2u8]));
    let taken = w.take_inner();
    assert_eq!(taken, Some(vec![2u8]));
    assert!(!w.is_present());
    assert!(w.get_mut().is_none());
}

#[test]
fn quickcheck_zlib_round_trip() {
    fn prop(v: Vec<u8>) -> bool {
        let mut w = Writer::new(Vec::new(), Compress::new(Compression::default(), true));
        write_all(&mut w, &v).unwrap();
        let compressed = finish(w).unwrap();
        let mut d = Decompress::new(true);
        read_all(&mut d, &compressed).unwrap() == v
    }
    quickcheck::quickcheck(prop as fn(Vec<u8>) -> bool);
}
