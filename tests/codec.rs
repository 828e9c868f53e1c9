use hash_string::{Digest, HashString, HashType, ParseError, PaymentId};

fn abab() -> String {
    "ab".repeat(32)
}

#[test]
fn digest_all_ab_encodes_and_decodes() {
    let h = HashString::new(Digest([0xAB; 32]));
    let text = h.to_hex_string();
    assert_eq!(text, abab());
    assert_eq!(text.len(), 64);
    let back = HashString::<Digest>::parse(&text).unwrap();
    assert_eq!(back.0, Digest([0xAB; 32]));
    assert_eq!(back.0.bytes(), &[0xABu8; 32][..]);
}

#[test]
fn round_trip_each_type() {
    let mut bytes = [0u8; 32];
    for (i, b) in bytes.iter_mut().enumerate() {
        *b = (i * 37 + 5) as u8;
    }
    let d = HashString::new(Digest(bytes));
    let back = HashString::<Digest>::parse(&d.to_hex_string()).unwrap();
    assert_eq!(back.0.bytes(), d.0.bytes());

    let short = HashString::new(PaymentId::Short([1, 2, 3, 4, 5, 6, 7, 0xfe]));
    let back = HashString::<PaymentId>::parse(&short.to_hex_string()).unwrap();
    assert_eq!(back.0, PaymentId::Short([1, 2, 3, 4, 5, 6, 7, 0xfe]));

    let long = HashString::new(PaymentId::Long(bytes));
    let back = HashString::<PaymentId>::parse(&long.to_hex_string()).unwrap();
    assert_eq!(back.0.bytes(), &bytes[..]);

    let raw = HashString::new(vec![0u8, 0x10, 0xff, 0x7a, 0x01]);
    let back = HashString::<Vec<u8>>::parse(&raw.to_hex_string()).unwrap();
    assert_eq!(back.0, vec![0u8, 0x10, 0xff, 0x7a, 0x01]);
}

#[test]
fn format_is_lowercase_hex() {
    let h = HashString::new(vec![0xDEu8, 0xAD, 0xBE, 0xEF, 0x09, 0xA0]);
    let text = h.to_hex_string();
    assert_eq!(text, "deadbeef09a0");
    assert!(text.chars().all(|c| c.is_ascii_digit() || ('a'..='f').contains(&c)));
}

#[test]
fn format_of_empty_buffer_is_empty() {
    assert_eq!(HashString::new(Vec::<u8>::new()).to_hex_string(), "");
}

#[test]
fn parse_ignores_case() {
    let lower = "00ffaabbccddeeff".repeat(4);
    let upper = lower.to_uppercase();
    let mixed: String = lower
        .chars()
        .enumerate()
        .map(|(i, c)| if i % 2 == 0 { c.to_ascii_uppercase() } else { c })
        .collect();
    let a = HashString::<Digest>::parse(&lower).unwrap();
    let b = HashString::<Digest>::parse(&upper).unwrap();
    let c = HashString::<Digest>::parse(&mixed).unwrap();
    assert_eq!(a.0, b.0);
    assert_eq!(a.0, c.0);
    assert_eq!(&a.0.bytes()[..4], &[0x00, 0xff, 0xaa, 0xbb]);
    assert_eq!(Vec::<u8>::from_str("AbCd").unwrap(), vec![0xab, 0xcd]);
}

#[test]
fn digest_length_enforced() {
    let short = "a1".repeat(31);
    let long = "a1".repeat(33);
    assert_eq!(short.len(), 62);
    assert_eq!(long.len(), 66);
    assert_eq!(HashString::<Digest>::parse(&short).unwrap_err(), ParseError::InvalidLength);
    assert_eq!(HashString::<Digest>::parse(&long).unwrap_err(), ParseError::InvalidLength);
    assert!(HashString::<Digest>::parse(&"a1".repeat(32)).is_ok());
}

#[test]
fn payment_id_lengths() {
    let short = PaymentId::from_str("0123456789abcdef").unwrap();
    assert_eq!(short, PaymentId::Short([0x01, 0x23, 0x45, 0x67, 0x89, 0xab, 0xcd, 0xef]));
    let long = PaymentId::from_str(&"5a".repeat(32)).unwrap();
    assert_eq!(long, PaymentId::Long([0x5a; 32]));
    assert_eq!(PaymentId::from_str(&"5a".repeat(16)), Err(ParseError::InvalidLength));
    assert_eq!(PaymentId::from_str(""), Err(ParseError::InvalidLength));
}

#[test]
fn odd_length_rejected() {
    assert_eq!(Digest::from_str("abc"), Err(ParseError::InvalidHex));
    assert_eq!(PaymentId::from_str("abc"), Err(ParseError::InvalidHex));
    assert_eq!(Vec::<u8>::from_str("abc"), Err(ParseError::InvalidHex));
    assert_eq!(HashString::<Vec<u8>>::parse("abc").unwrap_err(), ParseError::InvalidHex);
}

#[test]
fn non_hex_rejected() {
    assert_eq!(Digest::from_str("zz"), Err(ParseError::InvalidHex));
    assert_eq!(PaymentId::from_str("zz"), Err(ParseError::InvalidHex));
    assert_eq!(Vec::<u8>::from_str("zz"), Err(ParseError::InvalidHex));
    assert_eq!(Vec::<u8>::from_str("0x00"), Err(ParseError::InvalidHex));
    assert_eq!(Digest::from_str(&"g0".repeat(31)), Err(ParseError::InvalidHex));
}

#[test]
fn raw_buffer_any_length() {
    let empty = HashString::<Vec<u8>>::parse("").unwrap();
    assert!(empty.0.bytes().is_empty());
    let two = HashString::<Vec<u8>>::parse("00ff").unwrap();
    assert_eq!(two.0.bytes(), &[0x00u8, 0xFF][..]);
}

#[test]
fn bytes_view_each_type() {
    assert_eq!(Digest([7; 32]).bytes(), &[7u8; 32][..]);
    assert_eq!(PaymentId::Short([9; 8]).bytes(), &[9u8; 8][..]);
    assert_eq!(vec![1u8, 2, 3].bytes(), &[1u8, 2, 3][..]);
}
