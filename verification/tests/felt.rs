use class_sync::felt::Felt;

fn felt_with_tail(tail: &[u8]) -> Felt {
    let mut bytes = [0u8; 32];
    bytes[32 - tail.len()..].copy_from_slice(tail);
    Felt(bytes)
}

#[test]
fn hex_literal_with_prefix() {
    assert_eq!(Felt::from_hex_str("0x1"), Some(felt_with_tail(&[1])));
    assert_eq!(Felt::from_hex_str("0x2a"), Some(felt_with_tail(&[0x2a])));
    assert_eq!(Felt::from_hex_str("0x123"), Some(felt_with_tail(&[0x01, 0x23])));
}

#[test]
fn hex_literal_without_prefix() {
    assert_eq!(Felt::from_hex_str("ff"), Some(felt_with_tail(&[0xff])));
    assert_eq!(Felt::from_hex_str("abc"), Some(felt_with_tail(&[0x0a, 0xbc])));
}

#[test]
fn hex_literal_mixed_case() {
    assert_eq!(Felt::from_hex_str("0xAbCdEf"), Some(felt_with_tail(&[0xab, 0xcd, 0xef])));
    assert_eq!(Felt::from_hex_str("0xABCDEF"), Felt::from_hex_str("0xabcdef"));
}

#[test]
fn hex_literal_without_digits_is_zero() {
    assert_eq!(Felt::from_hex_str("0x"), Some(Felt::zero()));
    assert_eq!(Felt::from_hex_str(""), Some(Felt::zero()));
    assert_eq!(Felt::zero(), Felt([0u8; 32]));
}

#[test]
fn hex_literal_of_full_width() {
    let text = format!("0x07{}", "ff".repeat(31));
    let mut bytes = [0xffu8; 32];
    bytes[0] = 0x07;
    assert_eq!(Felt::from_hex_str(&text), Some(Felt(bytes)));
    let padded = format!("0x{}1", "0".repeat(63));
    assert_eq!(Felt::from_hex_str(&padded), Some(felt_with_tail(&[1])));
}

#[test]
fn hex_literal_of_more_than_251_bits_is_refused() {
    let text = format!("0x08{}", "00".repeat(31));
    assert_eq!(Felt::from_hex_str(&text), None);
    let text = format!("0x{}", "f".repeat(64));
    assert_eq!(Felt::from_hex_str(&text), None);
}

#[test]
fn hex_literal_that_is_too_long_is_refused() {
    let text = format!("0x{}", "0".repeat(65));
    assert_eq!(Felt::from_hex_str(&text), None);
    let text = "0".repeat(65);
    assert_eq!(Felt::from_hex_str(&text), None);
}

#[test]
fn hex_literal_with_a_stranger_is_refused() {
    assert_eq!(Felt::from_hex_str("0x12g4"), None);
    assert_eq!(Felt::from_hex_str("0x 1"), None);
    assert_eq!(Felt::from_hex_str("0X1"), None);
    assert_eq!(Felt::from_hex_str("-1"), None);
    assert_eq!(Felt::from_hex_str("0x1\u{e9}"), None);
    assert_eq!(Felt::from_hex_str("\u{ff11}"), None);
}

#[test]
fn number_as_field_element() {
    assert_eq!(Felt::from_u64(0), Felt::zero());
    assert_eq!(Felt::from_u64(7), felt_with_tail(&[7]));
    assert_eq!(Felt::from_u64(0x0102), felt_with_tail(&[1, 2]));
    assert_eq!(
        Felt::from_u64(u64::MAX),
        felt_with_tail(&[0xff, 0xff, 0xff, 0xff, 0xff, 0xff, 0xff, 0xff])
    );
    assert_eq!(
        Felt::from_u64(0x0123_4567_89ab_cdef),
        felt_with_tail(&[0x01, 0x23, 0x45, 0x67, 0x89, 0xab, 0xcd, 0xef])
    );
}

#[test]
fn equal_elements_have_equal_bytes() {
    let a = felt_with_tail(&[1, 2, 3]);
    let b = felt_with_tail(&[1, 2, 3]);
    let c = felt_with_tail(&[1, 2, 4]);
    let mut high = [0u8; 32];
    high[0] = 1;
    assert!(a == b);
    assert!(a != c);
    assert!(Felt(high) != Felt::zero());
}
