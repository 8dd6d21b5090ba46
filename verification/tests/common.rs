//! The wire format.

use hyperlight_js::common::{
    decode_binaries, decode_return, encode_binaries, encode_binary_return, encode_json_return,
    encode_json_with_binaries_return, DecodeError, FnReturn, TAG_BINARY, TAG_JSON,
    TAG_JSON_WITH_BINARIES,
};

#[test]
fn test_encode_decode_empty() {
    let encoded = encode_binaries::<&[u8]>(&[]).unwrap();
    assert_eq!(encoded, vec![0, 0, 0, 0]); // count = 0

    let decoded = decode_binaries(&encoded).unwrap();
    assert!(decoded.is_empty());
}

#[test]
fn test_encode_decode_single() {
    let blob = b"hello";
    let encoded = encode_binaries(&[blob]).unwrap();

    // count=1, len=5, "hello"
    let expected: Vec<u8> = vec![1, 0, 0, 0, 5, 0, 0, 0, b'h', b'e', b'l', b'l', b'o'];
    assert_eq!(encoded, expected);

    let decoded = decode_binaries(&encoded).unwrap();
    assert_eq!(decoded, vec![b"hello".to_vec()]);
}

#[test]
fn test_encode_decode_multiple() {
    let blobs: &[&[u8]] = &[b"abc", b"", b"xy"];
    let encoded = encode_binaries(blobs).unwrap();

    let decoded = decode_binaries(&encoded).unwrap();
    assert_eq!(decoded, vec![b"abc".to_vec(), b"".to_vec(), b"xy".to_vec()]);
}

#[test]
fn test_encode_decode_vec_of_vecs() {
    let blobs: Vec<Vec<u8>> = vec![b"ABC".to_vec(), b"XY".to_vec()];
    let encoded = encode_binaries(&blobs).unwrap();

    let decoded = decode_binaries(&encoded).unwrap();
    assert_eq!(decoded, blobs);
}

#[test]
fn test_decode_truncated_count() {
    let result = decode_binaries(&[1, 2, 3]);
    assert!(result.is_err());
}

#[test]
fn test_decode_truncated_length() {
    // count=1 but no length header
    let result = decode_binaries(&[1, 0, 0, 0]);
    assert!(result.is_err());
}

#[test]
fn test_decode_truncated_data() {
    // count=1, len=10 but only 3 bytes of data
    let result = decode_binaries(&[1, 0, 0, 0, 10, 0, 0, 0, 1, 2, 3]);
    assert!(result.is_err());
}

#[test]
fn test_decode_trailing_data() {
    // Valid sidecar with one blob "abc" followed by trailing garbage
    let mut data = encode_binaries(&[b"abc" as &[u8]]).unwrap();
    data.push(0xFF); // trailing byte
    let result = decode_binaries(&data);
    assert!(result.is_err());
    assert!(result.unwrap_err().to_string().contains("trailing"));
}

#[test]
fn test_return_json() {
    let json = r#"{"result":42}"#;
    let encoded = encode_json_return(json);
    assert_eq!(encoded[0], TAG_JSON);

    match decode_return(&encoded).unwrap() {
        FnReturn::Json(s) => assert_eq!(s, json),
        _ => panic!("Expected JSON return"),
    }
}

#[test]
fn test_return_binary() {
    let data = b"\x00\x01\x02\xff";
    let encoded = encode_binary_return(data);
    assert_eq!(encoded[0], TAG_BINARY);

    match decode_return(&encoded).unwrap() {
        FnReturn::Binary(b) => assert_eq!(b, data),
        _ => panic!("Expected binary return"),
    }
}

#[test]
fn test_return_empty() {
    let result = decode_return(&[]);
    assert!(result.is_err());
}

#[test]
fn test_return_unknown_tag() {
    let result = decode_return(&[0x99, 1, 2, 3]);
    assert!(result.is_err());
}

#[test]
fn test_return_json_with_binaries() {
    let json = r#"{"data":{"__bin__":0}}"#;
    let sidecar = encode_binaries(&[b"hello" as &[u8]]).unwrap();
    let encoded = encode_json_with_binaries_return(json, &sidecar).unwrap();
    assert_eq!(encoded[0], TAG_JSON_WITH_BINARIES);

    match decode_return(&encoded).unwrap() {
        FnReturn::JsonWithBinaries(j, s) => {
            assert_eq!(j, json);
            // Verify the sidecar round-trips correctly
            let blobs = decode_binaries(&s).unwrap();
            assert_eq!(blobs, vec![b"hello".to_vec()]);
        }
        _ => panic!("Expected JsonWithBinaries return"),
    }
}

#[test]
fn test_return_json_with_binaries_empty_sidecar() {
    let json = r#"{"result":42}"#;
    let sidecar = encode_binaries::<&[u8]>(&[]).unwrap();
    let encoded = encode_json_with_binaries_return(json, &sidecar).unwrap();

    match decode_return(&encoded).unwrap() {
        FnReturn::JsonWithBinaries(j, s) => {
            assert_eq!(j, json);
            let blobs = decode_binaries(&s).unwrap();
            assert!(blobs.is_empty());
        }
        _ => panic!("Expected JsonWithBinaries return"),
    }
}

#[test]
fn test_return_json_with_binaries_truncated() {
    // Tag + only 3 bytes (need 4 for sidecar length)
    let result = decode_return(&[TAG_JSON_WITH_BINARIES, 1, 2, 3]);
    assert!(result.is_err());
}

#[test]
fn test_decode_error_display() {
    let err = DecodeError::new("something went wrong");
    assert_eq!(err.to_string(), "something went wrong");
}
