use es_wifi::decimal::{decimal, push_decimal};

#[test]
fn zero_is_one_digit() {
    assert_eq!(decimal(0), b"0".to_vec());
}

#[test]
fn numbers_are_written_without_leading_zeros() {
    assert_eq!(decimal(7), b"7".to_vec());
    assert_eq!(decimal(10), b"10".to_vec());
    assert_eq!(decimal(1046), b"1046".to_vec());
    assert_eq!(decimal(1460), b"1460".to_vec());
    assert_eq!(decimal(65535), b"65535".to_vec());
}

#[test]
fn largest_word_is_written_in_full() {
    assert_eq!(decimal(usize::MAX), format!("{}", usize::MAX).into_bytes());
}

#[test]
fn push_decimal_appends() {
    let mut out = b"S1=".to_vec();
    push_decimal(&mut out, 512);
    assert_eq!(out, b"S1=512".to_vec());
}
