use assuan::percent::{decode_in_place, encode, encoded_len};

// -- encode tests --

#[test]
fn encode_ascii() {
    let src = b"hello";
    let mut dst = [0u8; 15];
    let n = encode(src, &mut dst);
    assert_eq!(&dst[..n], b"hello");
}

#[test]
fn encode_space_literal() {
    // Spaces are NOT encoded in Assuan protocol.
    let src = b"hello world";
    let mut dst = [0u8; 33];
    let n = encode(src, &mut dst);
    assert_eq!(&dst[..n], b"hello world");
}

#[test]
fn encode_percent() {
    let src = b"100%";
    let mut dst = [0u8; 12];
    let n = encode(src, &mut dst);
    assert_eq!(&dst[..n], b"100%25");
}

#[test]
fn encode_newline() {
    let src = b"line1\nline2";
    let mut dst = [0u8; 33];
    let n = encode(src, &mut dst);
    assert_eq!(&dst[..n], b"line1%0Aline2");
}

#[test]
fn encode_non_ascii() {
    let src = &[0x80u8, 0xFF];
    let mut dst = [0u8; 6];
    let n = encode(src, &mut dst);
    assert_eq!(&dst[..n], b"%80%FF");
}

#[test]
fn encode_empty() {
    let src = b"";
    let mut dst = [0u8; 0];
    let n = encode(src, &mut dst);
    assert_eq!(n, 0);
}

// -- decode tests --

#[test]
fn decode_no_encoding() {
    let mut s = b"hello".to_vec();
    assert_eq!(decode_in_place(&mut s).unwrap(), "hello");
}

#[test]
fn decode_percent_encoding() {
    let mut s = b"hello%20world".to_vec();
    assert_eq!(decode_in_place(&mut s).unwrap(), "hello world");
}

#[test]
fn decode_newline() {
    let mut s = b"line1%0Aline2".to_vec();
    assert_eq!(decode_in_place(&mut s).unwrap(), "line1\nline2");
}

#[test]
fn decode_percent_literal() {
    let mut s = b"100%25".to_vec();
    assert_eq!(decode_in_place(&mut s).unwrap(), "100%");
}

#[test]
fn decode_empty() {
    let mut s = b"".to_vec();
    assert_eq!(decode_in_place(&mut s).unwrap(), "");
}

#[test]
fn decode_lowercase_hex() {
    let mut s = b"line1%0aline2".to_vec();
    assert_eq!(decode_in_place(&mut s).unwrap(), "line1\nline2");
}

#[test]
fn decode_invalid_percent_at_end() {
    // Incomplete %XX at end — left as-is.
    let mut s = b"test%".to_vec();
    assert_eq!(decode_in_place(&mut s).unwrap(), "test%");
}

#[test]
fn decode_invalid_hex_after_percent() {
    // %ZZ is not valid hex — left as-is.
    let mut s = b"test%ZZ".to_vec();
    assert_eq!(decode_in_place(&mut s).unwrap(), "test%ZZ");
}

// -- round-trip test --

#[test]
fn encode_decode_roundtrip() {
    // Only test inputs whose decoded form is valid UTF-8.
    let inputs: &[&[u8]] = &[
        b"hello world",
        b"100%",
        b"line1\nline2",
        b"\x00\x01\x02",
        b"",
        b"Enter passphrase to unlock",
    ];
    for input in inputs {
        let mut encoded = vec![0u8; encoded_len(input.len())];
        let n = encode(input, &mut encoded);
        encoded.truncate(n);
        let decoded = decode_in_place(&mut encoded).unwrap();
        assert_eq!(decoded.as_bytes(), *input, "roundtrip failed for {:?}", input);
    }
}

#[test]
fn decode_non_utf8_returns_error() {
    // 0xFF is not valid UTF-8, so decoding %FF must fail.
    let mut encoded = b"%FF".to_vec();
    assert!(decode_in_place(&mut encoded).is_err());
}
