use timestamping::hexcode::{decode_hex, encode_hex};

#[test]
fn decode_valid_lowercase() {
    assert_eq!(decode_hex("00ff10"), Some(vec![0u8, 255, 16]));
}

#[test]
fn decode_valid_uppercase() {
    assert_eq!(decode_hex("AB"), Some(vec![171u8]));
    assert_eq!(decode_hex("aB"), Some(vec![171u8]));
}

#[test]
fn decode_empty_is_empty() {
    assert_eq!(decode_hex(""), Some(vec![]));
}

#[test]
fn decode_odd_length_fails() {
    assert_eq!(decode_hex("abc"), None);
}

#[test]
fn decode_invalid_chars_fails() {
    assert_eq!(decode_hex("zz"), None);
    assert_eq!(decode_hex("0g"), None);
}

#[test]
fn encode_known_value() {
    assert_eq!(encode_hex(&vec![0u8, 255, 16]).as_str(), "00ff10");
    assert_eq!(encode_hex(&vec![]).as_str(), "");
}

#[test]
fn encode_matches_reference_implementation() {
    let samples: Vec<Vec<u8>> = vec![
        vec![],
        vec![0],
        vec![1, 2, 3, 4, 5],
        (0u8..=255).collect(),
    ];
    for b in samples {
        assert_eq!(encode_hex(&b), hex::encode(&b));
    }
}

#[test]
fn decode_matches_reference_implementation() {
    for s in ["", "00", "deadbeef", "0123456789abcdefABCDEF00"] {
        assert_eq!(decode_hex(s), Some(hex::decode(s).unwrap()));
    }
}

#[test]
fn round_trip() {
    let b: Vec<u8> = (0u8..=255).collect();
    let s = encode_hex(&b);
    assert_eq!(decode_hex(s.as_str()), Some(b));
}
