//! What the wire format says of malformed input, and its round trips.

use hyperlight_js::common::{
    decode_binaries, decode_return, encode_binaries, encode_binary_return, encode_json_return,
    encode_json_with_binaries_return, DecodeError, FnReturn,
};

fn sidecar_error(data: &[u8]) -> String {
    decode_binaries(data).unwrap_err().to_string()
}

fn return_error(data: &[u8]) -> String {
    decode_return(data).unwrap_err().to_string()
}

#[test]
fn every_sidecar_fault_has_its_message() {
    assert_eq!(sidecar_error(&[]), "Binary sidecar too short for count header");
    assert_eq!(
        sidecar_error(&[2, 0, 0, 0, 1, 2, 3, 4, 5, 6, 7]),
        "Binary sidecar count (2) exceeds maximum possible (1)"
    );
    assert_eq!(
        sidecar_error(&[255, 255, 255, 255]),
        "Binary sidecar count (4294967295) exceeds maximum possible (0)"
    );
    assert_eq!(
        sidecar_error(&[2, 0, 0, 0, 4, 0, 0, 0, 1, 2, 3, 4]),
        "Binary sidecar truncated at blob 1 length header"
    );
    assert_eq!(
        sidecar_error(&[1, 0, 0, 0, 10, 0, 0, 0, 1, 2, 3]),
        "Binary sidecar truncated at blob 0 data (need 10 bytes, have 3)"
    );
    assert_eq!(
        sidecar_error(&[1, 0, 0, 0, 1, 0, 0, 0, 1, 2, 3, 4]),
        "Binary sidecar has 3 trailing bytes after all 1 blobs"
    );
}

#[test]
fn every_return_fault_has_its_message() {
    assert_eq!(return_error(&[]), "Empty return payload");
    assert_eq!(return_error(&[0x99, 1]), "Unknown return tag: 0x99");
    assert_eq!(return_error(&[0x0f]), "Unknown return tag: 0x0f");
    assert_eq!(
        return_error(&[0, b'a', 0xff]),
        "Invalid UTF-8 in JSON return: invalid utf-8 sequence of 1 bytes from index 1"
    );
    assert_eq!(
        return_error(&[2, 0, 0]),
        "JSON-with-binaries return too short for sidecar length header"
    );
    assert_eq!(
        return_error(&[2, 7, 0, 0, 0, 1, 2]),
        "JSON-with-binaries return truncated: need 12 bytes, have 7"
    );
    assert_eq!(
        return_error(&[2, 1, 0, 0, 0, 9, 0xc3]),
        "Invalid UTF-8 in JSON-with-binaries return: incomplete utf-8 byte sequence from index 0"
    );
}

#[test]
fn text_beyond_ascii_survives() {
    let text = "{\"naïve\":\"日本語 🎉\"}";
    match decode_return(&encode_json_return(text)).unwrap() {
        FnReturn::Json(s) => assert_eq!(s, text),
        _ => panic!("expected JSON"),
    }
    let encoded = encode_json_with_binaries_return(text, &[0, 0, 0, 0]).unwrap();
    match decode_return(&encoded).unwrap() {
        FnReturn::JsonWithBinaries(s, packed) => {
            assert_eq!(s, text);
            assert_eq!(packed, vec![0, 0, 0, 0]);
        }
        _ => panic!("expected JSON with binaries"),
    }
}

#[test]
fn lengths_are_little_endian() {
    let blob = vec![7u8; 0x1_02_03];
    let encoded = encode_binaries(&[blob.clone()]).unwrap();
    assert_eq!(&encoded[..8], &[1, 0, 0, 0, 3, 2, 1, 0]);
    assert_eq!(decode_binaries(&encoded).unwrap(), vec![blob]);
}

#[test]
fn accepted_sidecars_are_canonical() {
    let data = [2, 0, 0, 0, 0, 0, 0, 0, 2, 0, 0, 0, 5, 6];
    let blobs = decode_binaries(&data).unwrap();
    assert_eq!(blobs, vec![vec![], vec![5u8, 6]]);
    assert_eq!(encode_binaries(&blobs).unwrap(), data.to_vec());
}

#[test]
fn boxed_blobs_are_accepted() {
    let blobs: Vec<Box<[u8]>> = vec![vec![1u8].into_boxed_slice()];
    assert_eq!(
        encode_binaries(&blobs).unwrap(),
        vec![1, 0, 0, 0, 1, 0, 0, 0, 1]
    );
}

#[test]
fn kinds_of_returns_are_told_apart() {
    assert_eq!(encode_json_return("x"), vec![0, b'x']);
    assert_eq!(encode_binary_return(b"x"), vec![1, b'x']);
    assert_eq!(
        encode_json_with_binaries_return("x", &[]).unwrap(),
        vec![2, 0, 0, 0, 0, b'x']
    );
    match decode_return(&[1]).unwrap() {
        FnReturn::Binary(data) => assert!(data.is_empty()),
        _ => panic!("expected bytes"),
    }
}

#[test]
fn clones_keep_what_they_hold() {
    let err = DecodeError::new(String::from("why"));
    assert_eq!(err.clone().to_string(), "why");
    let ret = FnReturn::JsonWithBinaries("{}".to_string(), vec![1]);
    match ret.clone() {
        FnReturn::JsonWithBinaries(json, packed) => {
            assert_eq!(json, "{}");
            assert_eq!(packed, vec![1]);
        }
        _ => panic!("expected JSON with binaries"),
    }
}

#[test]
fn text_is_sent_as_its_utf8_bytes() {
    let expected = encode_binaries(&[vec![b'a', 0xc3, 0xa9], vec![]]).unwrap();
    assert_eq!(encode_binaries(&["aé", ""]).unwrap(), expected);
    assert_eq!(
        encode_binaries(&["aé".to_string(), String::new()]).unwrap(),
        expected
    );
}
