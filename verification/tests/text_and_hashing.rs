use sharded_ledger::hashing::{clone_strings, push_all_utf8, push_utf8, sha256_hex};
use sharded_ledger::text::{push_decimal, push_decimal_text, push_signed_decimal, to_hex};

#[test]
fn decimal_digits_of_zero() {
    let mut out = Vec::new();
    push_decimal(&mut out, 0);
    assert_eq!(out, b"0".to_vec());
}

#[test]
fn decimal_digits_of_largest_number() {
    let mut out = b"n=".to_vec();
    push_decimal(&mut out, u64::MAX);
    assert_eq!(out, b"n=18446744073709551615".to_vec());
}

#[test]
fn signed_decimal_of_negative_numbers() {
    let mut out = Vec::new();
    push_signed_decimal(&mut out, -5);
    assert_eq!(out, b"-5".to_vec());
    let mut least = Vec::new();
    push_signed_decimal(&mut least, i64::MIN);
    assert_eq!(least, b"-9223372036854775808".to_vec());
}

#[test]
fn signed_decimal_of_positive_numbers() {
    let mut out = Vec::new();
    push_signed_decimal(&mut out, 1700000000);
    assert_eq!(out, b"1700000000".to_vec());
    let mut greatest = Vec::new();
    push_signed_decimal(&mut greatest, i64::MAX);
    assert_eq!(greatest, b"9223372036854775807".to_vec());
}

#[test]
fn decimal_text_appends_characters() {
    let mut out = String::from("x:");
    push_decimal_text(&mut out, 45000);
    assert_eq!(out, "x:45000");
}

#[test]
fn hex_of_bytes() {
    assert_eq!(to_hex(&vec![]), "");
    assert_eq!(to_hex(&vec![0x00, 0x0f, 0xa5, 0xff]), "000fa5ff");
    assert_eq!(to_hex(&vec![0x12, 0x34, 0x56, 0x78, 0x9a, 0xbc, 0xde]), "123456789abcde");
}

#[test]
fn utf8_bytes_are_appended() {
    let mut out = vec![1u8];
    push_utf8(&mut out, "a\u{e9}");
    assert_eq!(out, vec![1u8, 0x61, 0xc3, 0xa9]);
    let mut all = Vec::new();
    push_all_utf8(&mut all, &vec!["tx1".to_string(), "".to_string(), "tx2".to_string()]);
    assert_eq!(all, b"tx1tx2".to_vec());
}

#[test]
fn strings_are_copied() {
    let strings = vec!["a".to_string(), "bc".to_string()];
    assert_eq!(clone_strings(&strings), strings);
}

#[test]
fn sha256_of_known_inputs() {
    assert_eq!(
        sha256_hex(&b"abc".to_vec()),
        "ba7816bf8f01cfea414140de5dae2223b00361a396177a9cb410ff61f20015ad"
    );
    assert_eq!(
        sha256_hex(&Vec::new()),
        "e3b0c44298fc1c149afbf4c8996fb92427ae41e4649b934ca495991b7852b855"
    );
}

#[test]
fn sha256_is_not_the_input() {
    let hash = sha256_hex(&b"abc".to_vec());
    assert_eq!(hash.len(), 64);
    assert_ne!(hash, "616263");
    assert_ne!(hash, "abc");
}
