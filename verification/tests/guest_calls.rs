//! Calls of host functions from the guest's side.

use hyperlight_js::common::{
    decode_binaries, encode_binaries, encode_binary_return, encode_json_return,
    encode_json_with_binaries_return,
};
use hyperlight_js::json::{Json, JsonNumber};
use hyperlight_js::runtime::host_fn::{
    call_bin, call_json, decode_reply, prepare_bin_call, HostCallError, HostReply,
};
use hyperlight_js::runtime::values::{GuestValue, JsValue};
use hyperlight_js::sandbox::host_fn::Function;

/// Turns the library's JSON into a `serde_json` value.
struct Encoder;

impl Function<serde_json::Value, Json> for Encoder {
    fn call(&self, json: Json) -> serde_json::Value {
        match json {
            Json::Null => serde_json::Value::Null,
            Json::Number(JsonNumber::PosInt(n)) => n.into(),
            Json::Array(items) => items.into_iter().map(|item| self.call(item)).collect(),
            Json::Object(members) => members
                .into_iter()
                .map(|(key, value)| (key, self.call(value)))
                .collect(),
            other => panic!("unexpected {other:?}"),
        }
    }
}

/// Turns a `serde_json` value into the library's JSON.
struct Decoder;

impl Function<Json, serde_json::Value> for Decoder {
    fn call(&self, value: serde_json::Value) -> Json {
        match value {
            serde_json::Value::Null => Json::Null,
            serde_json::Value::Number(n) => Json::Number(JsonNumber::PosInt(n.as_u64().unwrap())),
            serde_json::Value::Object(members) => Json::Object(
                members
                    .into_iter()
                    .map(|(key, value)| (key, self.call(value)))
                    .collect(),
            ),
            other => panic!("unexpected {other:?}"),
        }
    }
}

/// A host function that gives a fixed reply.
struct Reply(Vec<u8>);

impl Function<Result<Vec<u8>, HostCallError>, (String, Vec<u8>)> for Reply {
    fn call(&self, _args: (String, Vec<u8>)) -> Result<Vec<u8>, HostCallError> {
        Ok(self.0.clone())
    }
}

/// A host function that sends its last argument back, with the blobs it got.
struct Mirror;

impl Function<Result<Vec<u8>, HostCallError>, (String, Vec<u8>)> for Mirror {
    fn call(&self, args: (String, Vec<u8>)) -> Result<Vec<u8>, HostCallError> {
        let list: Vec<serde_json::Value> = serde_json::from_str(&args.0).unwrap();
        let last = list.last().unwrap().to_string();
        Ok(encode_json_with_binaries_return(&last, &args.1).unwrap())
    }
}

/// A host function that fails.
struct Fail(bool);

impl Function<Result<Vec<u8>, HostCallError>, (String, Vec<u8>)> for Fail {
    fn call(&self, _args: (String, Vec<u8>)) -> Result<Vec<u8>, HostCallError> {
        if self.0 {
            Err(HostCallError::Engine)
        } else {
            Err(HostCallError::Message("no luck".to_string()))
        }
    }
}

fn shown<T: std::fmt::Debug>(value: &T) -> String {
    format!("{value:?}")
}

fn thrown(r: Result<GuestValue, HostCallError>) -> String {
    r.unwrap_err().thrown().unwrap()
}

#[test]
fn bytes_sent_come_back() {
    let args = vec![
        JsValue::Uint8Array(vec![1]),
        JsValue::Uint8Array(vec![4, 5]),
    ];
    let r = call_bin(&Mirror, &Encoder, &Decoder, args).unwrap();
    assert_eq!(shown(&r), shown(&GuestValue::Uint8Array(vec![4, 5])));
}

#[test]
fn replies_become_values() {
    let call = |data: Vec<u8>| call_bin(&Reply(data), &Encoder, &Decoder, vec![]);
    assert_eq!(
        shown(&call(encode_json_return("7")).unwrap()),
        shown(&GuestValue::Int(7))
    );
    assert_eq!(
        shown(&call(encode_binary_return(&[1])).unwrap()),
        shown(&GuestValue::Uint8Array(vec![1]))
    );
    assert_eq!(
        shown(&call(encode_json_return(r#"{"__bin__":0}"#)).unwrap()),
        shown(&GuestValue::Object(vec![(
            "__bin__".to_string(),
            GuestValue::Int(0)
        )]))
    );
}

#[test]
fn failures_are_thrown_with_their_context() {
    assert_eq!(
        thrown(call_bin(&Fail(false), &Encoder, &Decoder, vec![])),
        "Host function error: Calling binary host function: no luck"
    );
    assert!(call_bin(&Fail(true), &Encoder, &Decoder, vec![])
        .unwrap_err()
        .thrown()
        .is_none());
    let call = |data: Vec<u8>| thrown(call_bin(&Reply(data), &Encoder, &Decoder, vec![]));
    assert_eq!(call(vec![]), "Host function error: Empty return payload");
    assert_eq!(
        call(encode_json_return("oops")),
        "Host function error: Parsing JSON return from host: expected value at line 1 column 1"
    );
    let empty = encode_binaries::<Vec<u8>>(&[]).unwrap();
    assert_eq!(
        call(encode_json_with_binaries_return("oops", &empty).unwrap()),
        "Host function error: Parsing JSON-with-binaries return from host: expected value at line 1 column 1"
    );
    assert_eq!(
        call(encode_json_with_binaries_return("null", &[1]).unwrap()),
        "Host function error: Binary sidecar too short for count header"
    );
    assert_eq!(
        call(encode_json_with_binaries_return(r#"{"__bin__":0}"#, &empty).unwrap()),
        "Host function error: Binary placeholder index 0 out of bounds (have 0 blobs)"
    );
    assert!(call_bin(&Mirror, &Encoder, &Decoder, vec![JsValue::Unreadable])
        .unwrap_err()
        .thrown()
        .is_none());
}

#[test]
fn preparing_packs_the_blobs() {
    let args = vec![JsValue::Int(1), JsValue::Uint8Array(vec![6])];
    let (text, packed) = prepare_bin_call(&Encoder, args).unwrap();
    assert_eq!(text, r#"[1,{"__bin__":0}]"#);
    assert_eq!(decode_binaries(&packed).unwrap(), vec![vec![6]]);
}

#[test]
fn replies_are_read_with_their_blobs() {
    let packed = encode_binaries(&[vec![1u8], vec![]]).unwrap();
    match decode_reply(&encode_json_with_binaries_return("null", &packed).unwrap()).unwrap() {
        HostReply::JsonWithBlobs(text, blobs) => {
            assert_eq!(text, "null");
            assert_eq!(blobs, vec![vec![1u8], vec![]]);
        }
        other => panic!("unexpected {other:?}"),
    }
}

/// A function from JSON text to JSON text.
struct Upper;

impl Function<Result<String, HostCallError>, String> for Upper {
    fn call(&self, args: String) -> Result<String, HostCallError> {
        if args.is_empty() {
            Err(HostCallError::Message("nothing".to_string()))
        } else {
            Ok(args.to_uppercase())
        }
    }
}

#[test]
fn json_functions_get_the_stringified_arguments() {
    assert_eq!(call_json(&Upper, Some("[\"a\"]".to_string())).unwrap(), "[\"A\"]");
    assert_eq!(
        call_json(&Upper, None).unwrap_err().thrown().unwrap(),
        "Host function error: Serializing host function arguments"
    );
    assert_eq!(
        call_json(&Upper, Some(String::new())).unwrap_err().thrown().unwrap(),
        "Host function error: Calling host function: nothing"
    );
}
