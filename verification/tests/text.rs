use superman::bytes::{
    copy_bytes, copy_range, find_nul, push_all, push_be32, read_be32, same_bytes, split_nul,
};
use superman::text::{decimal, signed_decimal, utf8};

#[test]
fn decimals() {
    assert_eq!(decimal(0), "0");
    assert_eq!(decimal(7), "7");
    assert_eq!(decimal(10), "10");
    assert_eq!(decimal(1234567890), "1234567890");
    assert_eq!(decimal(u64::MAX), "18446744073709551615");
    assert_eq!(signed_decimal(0), "0");
    assert_eq!(signed_decimal(-1), "-1");
    assert_eq!(signed_decimal(42), "42");
    assert_eq!(signed_decimal(i64::MIN), "-9223372036854775808");
    assert_eq!(signed_decimal(i64::MAX), "9223372036854775807");
}

#[test]
fn utf8_bytes() {
    assert_eq!(utf8("abc"), b"abc".to_vec());
    assert_eq!(utf8("1µs"), vec![0x31, 0xc2, 0xb5, 0x73]);
    assert_eq!(utf8(""), Vec::<u8>::new());
}

#[test]
fn big_endian_words() {
    let mut out = vec![9u8];
    push_be32(&mut out, 0x0052_4551);
    assert_eq!(out, vec![9, 0, 0x52, 0x45, 0x51]);
    push_be32(&mut out, u32::MAX);
    push_be32(&mut out, 31);
    assert_eq!(&out[5..], &[255, 255, 255, 255, 0, 0, 0, 31]);
    assert_eq!(read_be32(&out, 1), 0x0052_4551);
    assert_eq!(read_be32(&out, 5), u32::MAX);
    assert_eq!(read_be32(&out, 9), 31);
    assert_eq!(read_be32(&[1, 2, 3, 4], 0), 0x0102_0304);
}

#[test]
fn copies() {
    let mut out = b"ab".to_vec();
    push_all(&mut out, b"cd");
    push_all(&mut out, b"");
    assert_eq!(out, b"abcd");
    assert_eq!(copy_range(&out, 1, 3), b"bc");
    assert_eq!(copy_range(&out, 4, 4), b"");
    assert_eq!(copy_bytes(&out), b"abcd");
    assert!(same_bytes(b"abc", b"abc"));
    assert!(same_bytes(b"", b""));
    assert!(!same_bytes(b"abc", b"abd"));
    assert!(!same_bytes(b"abc", b"ab"));
}

#[test]
fn nul_terminated_fields() {
    assert_eq!(find_nul(b"ab\0cd\0", 0), 2);
    assert_eq!(find_nul(b"ab\0cd\0", 2), 2);
    assert_eq!(find_nul(b"ab\0cd\0", 3), 5);
    assert_eq!(find_nul(b"abc", 0), 3);
    assert_eq!(find_nul(b"abc", 3), 3);
    assert_eq!(split_nul(b"ab\0cd\0e", 0), Some((b"ab".to_vec(), 3)));
    assert_eq!(split_nul(b"ab\0cd\0e", 3), Some((b"cd".to_vec(), 6)));
    assert_eq!(split_nul(b"ab\0cd\0e", 6), None);
    assert_eq!(split_nul(b"\0", 0), Some((Vec::new(), 1)));
    assert_eq!(split_nul(b"", 0), None);
}
