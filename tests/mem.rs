use flate2::{Compress, Compression, Decompress, FlushCompress, FlushDecompress, Status};

#[test]
fn deflate_decoder_partial() {
    let input = vec![
        210, 82, 8, 12, 245, 15, 113, 12, 242, 247, 15, 81, 240, 244, 115, 242, 143, 80, 80, 10,
        45, 78, 45, 82, 40, 44, 205, 47, 73, 84, 226, 229, 210, 130, 200, 163, 136, 42, 104, 4,
        135, 248, 7, 57, 186, 187, 42, 152, 155, 41, 24, 27, 152, 27, 25, 24, 104, 242, 114, 57,
        26, 24, 24, 24, 42, 248, 123, 43, 184, 167, 150, 128, 213, 21, 229, 231, 151, 40, 36, 231,
        231, 22, 228, 164, 150, 164, 166, 40, 104, 24, 232, 129, 20, 104, 43, 128, 104, 3, 133,
        226, 212, 228, 98, 77, 61, 94, 46, 0, 0, 0, 0, 255, 255,
    ];
    let expected_output = b"* QUOTAROOT INBOX \"User quota\"\r\n* QUOTA \"User quota\" (STORAGE 76 307200)\r\nA0001 OK Getquotaroot completed (0.001 + 0.000 secs).\r\n";

    // Create very small output buffer.
    let mut output_buf = [0; 8];
    let mut output: Vec<u8> = Vec::new();

    let zlib_header = false;
    let mut decompress = Decompress::new(zlib_header);

    let flush_decompress = FlushDecompress::NoFlush;
    loop {
        let prev_out = decompress.total_out();
        let status = decompress
            .decompress(&input[decompress.total_in() as usize..], &mut output_buf, flush_decompress)
            .unwrap();
        let output_len = decompress.total_out() - prev_out;
        output.extend_from_slice(&output_buf[..output_len as usize]);

        // IMAP stream never ends.
        assert_ne!(status, Status::StreamEnd);

        if status == Status::BufError && output_len == 0 {
            break;
        }
    }

    assert_eq!(output.as_slice(), expected_output);
}

#[test]
fn compress_new_with_window_bits_is_present_and_works() {
    let string = "hello world".as_bytes();

    // Test with window_bits = 9 (minimum)
    let mut encoded = Vec::with_capacity(1024);
    let mut encoder = Compress::new_with_window_bits(Compression::default(), true, 9);
    encoder
        .compress_vec(string, &mut encoded, FlushCompress::Finish)
        .unwrap();
    assert_ne!(encoded.len(), 0);

    let mut decoder = Decompress::new_with_window_bits(true, 9);
    let mut decoded = [0; 1024];
    decoder
        .decompress(&encoded, &mut decoded, FlushDecompress::Finish)
        .unwrap();
    assert_eq!(&decoded[..string.len()], string);

    // Test with window_bits = 15 (maximum)
    let mut encoded = Vec::with_capacity(1024);
    let mut encoder = Compress::new_with_window_bits(Compression::default(), false, 15);
    encoder
        .compress_vec(string, &mut encoded, FlushCompress::Finish)
        .unwrap();
    assert_ne!(encoded.len(), 0);

    let mut decoder = Decompress::new_with_window_bits(false, 15);
    let mut decoded = [0; 1024];
    decoder
        .decompress(&encoded, &mut decoded, FlushDecompress::Finish)
        .unwrap();
    assert_eq!(&decoded[..string.len()], string);
}

#[test]
fn set_level_is_present() {
    let mut encoder = Compress::new(Compression::default(), true);
    encoder.set_level(Compression::fast()).unwrap();
    encoder.set_level(Compression::best()).unwrap();
    encoder.set_level(Compression::none()).unwrap();
}

#[test]
fn compress_vec_respects_capacity() {
    let data: Vec<u8> = (0..10000u32).map(|i| (i % 256) as u8).collect();
    let mut out = Vec::with_capacity(16);
    out.push(42u8);
    let mut c = Compress::new(Compression::none(), false);
    let status = c.compress_vec(&data, &mut out, FlushCompress::Finish).unwrap();
    assert_eq!(status, Status::Progress);
    assert_eq!(out[0], 42);
    assert!(out.len() <= 16);
    assert_eq!(out.len() as u64, 1 + c.total_out());
    assert!(c.total_out() > 0);
}

#[test]
fn partial_decode_small_output() {
    let data = vec![7u8; 5000];
    let mut encoded = Vec::with_capacity(10000);
    Compress::new(Compression::default(), true).compress_vec(&data, &mut encoded, FlushCompress::Finish).unwrap();
    let mut d = Decompress::new(true);
    let mut out = [0u8; 100];
    let status = d.decompress(&encoded, &mut out, FlushDecompress::NoFlush).unwrap();
    assert_eq!(status, Status::Progress);
    assert!(d.total_in() < encoded.len() as u64 || d.total_out() == 100);
    let mut result = out[..d.total_out() as usize].to_vec();
    loop {
        let before = d.total_out();
        let status = d
            .decompress(&encoded[d.total_in() as usize..], &mut out, FlushDecompress::NoFlush)
            .unwrap();
        result.extend_from_slice(&out[..(d.total_out() - before) as usize]);
        if status == Status::StreamEnd {
            break;
        }
    }
    assert_eq!(result, data);
}

#[test]
fn reset_starts_over() {
    let mut c = Compress::new(Compression::default(), true);
    let mut first = Vec::with_capacity(1000);
    c.compress_vec(b"abcabcabc", &mut first, FlushCompress::Finish).unwrap();
    c.reset();
    assert_eq!(c.total_in(), 0);
    assert_eq!(c.total_out(), 0);
    let mut second = Vec::with_capacity(1000);
    c.compress_vec(b"abcabcabc", &mut second, FlushCompress::Finish).unwrap();
    assert_eq!(first, second);
    let mut d = Decompress::new(true);
    let mut out = [0u8; 100];
    d.decompress(&first, &mut out, FlushDecompress::Finish).unwrap();
    d.reset(true);
    assert_eq!(d.total_out(), 0);
    assert_eq!(d.decompress(&second, &mut out, FlushDecompress::Finish).unwrap(), Status::StreamEnd);
    assert_eq!(&out[..9], b"abcabcabc");
}

#[test]
fn block_flush_is_rejected() {
    let mut c = Compress::new(Compression::default(), false);
    let mut out = [0u8; 100];
    assert!(c.compress(b"abc", &mut out, FlushCompress::Block).is_err());
    assert_eq!(c.total_in(), 0);
}

#[test]
fn corrupt_input_reports_data_error() {
    let mut d = Decompress::new(true);
    let mut out = [0u8; 100];
    let e = d.decompress(&[0xff; 20], &mut out, FlushDecompress::NoFlush).unwrap_err();
    assert_eq!(e.needs_dictionary(), None);
}

#[test]
fn compression_levels() {
    assert_eq!(Compression::none().level(), 0);
    assert_eq!(Compression::fast().level(), 1);
    assert_eq!(Compression::best().level(), 9);
    assert_eq!(Compression::default().level(), 6);
    assert_eq!(Compression::new(10).level(), 10);
}
