use leaflash::uboot_env::{parse, parse_with_crc, EnvError};

fn build(payload: &[u8], total_size: usize) -> Vec<u8> {
    // Pad payload with NULs (to mimic mkenvimage -p 0x0 output) and
    // prepend a correct LE CRC32.
    let mut data = vec![0u8; total_size];
    data[4..4 + payload.len()].copy_from_slice(payload);
    let crc = crc32fast::hash(&data[4..]);
    data[..4].copy_from_slice(&crc.to_le_bytes());
    data
}

#[test]
fn parses_a_single_var() {
    let payload = b"mtdparts=sfc_nor:64K(env)\0\0";
    let env = parse(&build(payload, 256)).unwrap();
    assert_eq!(env.vars.len(), 1);
    assert_eq!(env.vars[0].0, "mtdparts");
    assert_eq!(env.vars[0].1, "sfc_nor:64K(env)");
}

#[test]
fn parses_multiple_vars_and_get() {
    let payload = b"foo=bar\0baz=qux\0mtdparts=x:1K(p1)\0\0";
    let env = parse(&build(payload, 256)).unwrap();
    assert_eq!(env.get("foo"), Some("bar"));
    assert_eq!(env.get("baz"), Some("qux"));
    assert_eq!(env.get("mtdparts"), Some("x:1K(p1)"));
    assert_eq!(env.get("missing"), None);
}

#[test]
fn rejects_bad_crc() {
    let mut img = build(b"foo=bar\0\0", 256);
    img[0] ^= 0xff;
    let err = parse(&img).unwrap_err().message();
    assert!(err.contains("CRC32"), "expected CRC error, got: {err}");
}

#[test]
fn handles_be_crc() {
    // mkenvimage -b stores the CRC as big-endian; the parser must
    // accept either endianness.
    let mut img = build(b"foo=bar\0\0", 256);
    let crc = crc32fast::hash(&img[4..]);
    img[..4].copy_from_slice(&crc.to_be_bytes());
    let env = parse(&img).unwrap();
    assert_eq!(env.get("foo"), Some("bar"));
}

#[test]
fn known_checksum_is_accepted() {
    let body = b"a=b\0\0";
    let crc = crc32fast::hash(body);
    let mut img = crc.to_le_bytes().to_vec();
    img.extend_from_slice(body);
    assert_eq!(parse(&img).unwrap().get("a"), Some("b"));
    assert_eq!(parse_with_crc(&img, crc).unwrap().get("a"), Some("b"));
    assert!(parse_with_crc(&img, crc ^ 1).is_err());
}

#[test]
fn checksum_mismatch_is_reported_in_full() {
    let img = [0x01, 0x02, 0x03, 0x04, b'a', b'=', b'b', 0, 0];
    let err = parse_with_crc(&img, 0xdead_beef).unwrap_err();
    assert_eq!(
        err.message(),
        "U-Boot env CRC32 mismatch: stored LE=0x04030201 BE=0x01020304, \
         computed=0xdeadbeef (file is 9 bytes)"
    );
}

#[test]
fn tiny_image_is_refused() {
    let err = parse(&[0, 0, 0, 0]).unwrap_err();
    assert_eq!(err, EnvError::TooSmall { len: 4 });
    assert_eq!(err.message(), "env image too small (4 bytes)");
}

#[test]
fn redundant_flags_byte_is_skipped() {
    let env = parse(&build(b"\x01foo=bar\0\0", 64)).unwrap();
    assert_eq!(env.get("foo"), Some("bar"));
}

#[test]
fn text_that_is_not_utf8_is_refused() {
    assert_eq!(parse(&build(b"f\xff=bar\0\0", 64)).unwrap_err(), EnvError::KeyNotUtf8);
    assert_eq!(parse(&build(b"foo=\xff\0\0", 64)).unwrap_err(), EnvError::ValueNotUtf8);
    assert_eq!(
        EnvError::KeyNotUtf8.message(),
        "U-Boot env entry has non-UTF-8 key"
    );
    assert_eq!(
        EnvError::ValueNotUtf8.message(),
        "U-Boot env entry has non-UTF-8 value"
    );
}

#[test]
fn entry_without_equals_sign_ends_the_list() {
    let env = parse(&build(b"foo=bar\0garbage\0baz=qux\0\0", 64)).unwrap();
    assert_eq!(env.vars.len(), 1);
}

#[test]
fn value_may_hold_equals_signs_and_first_key_wins() {
    let env = parse(&build(b"foo=a=b\0foo=c\0\0", 64)).unwrap();
    assert_eq!(env.get("foo"), Some("a=b"));
    assert_eq!(env.vars.len(), 2);
}
