use flate2::Crc;

fn crc_of(data: &[u8]) -> Crc {
    let mut c = Crc::new();
    c.update(data);
    c
}

#[test]
fn crc_hello() {
    assert_eq!(crc_of(b"hello").sum(), 0x3610A686);
}

#[test]
fn crc_quick_brown_fox() {
    let c = crc_of(b"The quick brown fox jumps over the lazy dog");
    assert_eq!(c.sum(), 0x414FA339);
    assert_eq!(c.amount(), 43);
}

#[test]
fn crc_empty_and_reset() {
    let mut c = crc_of(b"abc");
    assert_ne!(c.sum(), 0);
    c.reset();
    assert_eq!(c.sum(), 0);
    assert_eq!(c.amount(), 0);
    assert_eq!(crc_of(b"").sum(), 0);
}

#[test]
fn crc_update_in_pieces() {
    let data: Vec<u8> = (0..5000u32).map(|i| (i * 31 % 256) as u8).collect();
    for split in [0, 1, 63, 64, 65, 128, 1000, 4999, 5000] {
        let mut c = Crc::new();
        c.update(&data[..split]);
        c.update(&data[split..]);
        assert_eq!(c.sum(), crc_of(&data).sum());
        assert_eq!(c.amount(), 5000);
    }
}

#[test]
fn crc_combine() {
    let a = b"The quick brown fox ";
    let b = b"jumps over the lazy dog";
    let mut c = crc_of(a);
    c.combine(&crc_of(b));
    assert_eq!(c.sum(), 0x414FA339);
    assert_eq!(c.amount(), 43);
}

#[test]
fn crc_combine_identity_and_associativity() {
    let (a, b, c) = (b"first part".as_slice(), b"second".as_slice(), b"third and last".as_slice());
    let mut x = crc_of(a);
    x.combine(&Crc::new());
    assert_eq!(x.sum(), crc_of(a).sum());
    let mut left = crc_of(a);
    left.combine(&crc_of(b));
    left.combine(&crc_of(c));
    let mut bc = crc_of(b);
    bc.combine(&crc_of(c));
    let mut right = crc_of(a);
    right.combine(&bc);
    assert_eq!(left.sum(), right.sum());
    assert_eq!(left.amount(), right.amount());
}
