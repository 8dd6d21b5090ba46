//! Values and results of host functions in Node.js.

use hyperlight_js::common::{FnReturn, MAX_JSON_DEPTH};
use hyperlight_js::host_api::node::{
    bytes_to_copy, callback_return, is_buffer, json_to_napi_with_buffers, spread_args,
    CallbackEvent, JsReturn, NodeFault, NodeValue,
};
use hyperlight_js::json::{Json, JsonNumber};
use hyperlight_js::sandbox::error::HyperlightError;

fn shown<T: std::fmt::Debug>(value: &T) -> String {
    format!("{value:?}")
}

fn whole(n: u64) -> Json {
    Json::Number(JsonNumber::PosInt(n))
}

fn object(members: Vec<(&str, Json)>) -> Json {
    Json::Object(
        members
            .into_iter()
            .map(|(k, v)| (k.to_string(), v))
            .collect(),
    )
}

#[test]
fn placeholders_become_buffers() {
    let value = object(vec![
        ("data", object(vec![("__bin__", whole(1))])),
        ("list", Json::Array(vec![object(vec![("__bin__", whole(0))]), Json::Null])),
    ]);
    let blobs = vec![vec![1u8], vec![2u8, 3]];
    let node = json_to_napi_with_buffers(value, &blobs, 0).unwrap();
    assert_eq!(
        shown(&node),
        shown(&NodeValue::Object(vec![
            ("data".to_string(), NodeValue::Buffer(vec![2, 3])),
            (
                "list".to_string(),
                NodeValue::Array(vec![
                    NodeValue::Buffer(vec![1]),
                    NodeValue::Plain(Json::Null)
                ])
            ),
        ]))
    );
}

#[test]
fn every_node_fault_has_its_message() {
    let blobs = vec![vec![]];
    let fault = |json| json_to_napi_with_buffers(json, &blobs, 0).unwrap_err();
    assert_eq!(
        fault(object(vec![("__bin__", whole(1))])).to_string(),
        "Binary placeholder index 1 out of bounds (have 1 blobs)"
    );
    assert_eq!(
        fault(object(vec![("a\0b", Json::Null)])).to_string(),
        "Object key contains null byte"
    );
    let mut deep = Json::Null;
    for _ in 0..MAX_JSON_DEPTH + 1 {
        deep = object(vec![("x", deep)]);
    }
    assert_eq!(
        fault(deep).to_string(),
        "JSON nesting depth exceeds maximum (64)"
    );
    assert_eq!(
        NodeFault::ArrayTooLong { len: 5_000_000_000 }.to_string(),
        "Array length 5000000000 exceeds u32::MAX"
    );
}

#[test]
fn a_bad_value_is_reported_before_its_key() {
    let blobs = vec![vec![]];
    let value = object(vec![("a\0b", object(vec![("__bin__", whole(9))]))]);
    assert_eq!(
        json_to_napi_with_buffers(value, &blobs, 0).unwrap_err(),
        NodeFault::NoSuchBlob { index: 9, blobs: 1 }
    );
}

#[test]
fn arrays_are_spread_and_other_values_are_not() {
    let args = spread_args(Json::Array(vec![whole(1), object(vec![("__bin__", whole(0))])]), vec![vec![8]]);
    let values: Vec<String> = args
        .into_iter()
        .map(|arg| shown(&arg.to_node().unwrap()))
        .collect();
    assert_eq!(
        values,
        vec![
            shown(&NodeValue::Plain(whole(1))),
            shown(&NodeValue::Buffer(vec![8]))
        ]
    );
    let args = spread_args(Json::Bool(true), vec![vec![8]]);
    assert_eq!(args.len(), 1);
}

#[test]
fn without_blobs_arguments_stay_as_they_are() {
    let args = spread_args(Json::Array(vec![object(vec![("__bin__", whole(0))])]), vec![]);
    for arg in args {
        assert_eq!(
            shown(&arg.to_node().unwrap()),
            shown(&NodeValue::Plain(object(vec![("__bin__", whole(0))])))
        );
    }
}

#[test]
fn results_of_callbacks_are_sent() {
    match callback_return(CallbackEvent::Returned(Some(JsReturn::Buffer(vec![1, 2])))).unwrap() {
        FnReturn::Binary(bytes) => assert_eq!(bytes, vec![1, 2]),
        other => panic!("unexpected {other:?}"),
    }
    let value: serde_json::Value = serde_json::from_str("[1, {\"a\": null}]").unwrap();
    match callback_return(CallbackEvent::Returned(Some(JsReturn::Value(value)))).unwrap() {
        FnReturn::Json(text) => assert_eq!(text, "[1,{\"a\":null}]"),
        other => panic!("unexpected {other:?}"),
    }
    match callback_return(CallbackEvent::Returned(None)).unwrap() {
        FnReturn::Json(text) => assert_eq!(text, "null"),
        other => panic!("unexpected {other:?}"),
    }
}

#[test]
fn failures_of_callbacks_are_errors() {
    let message = |event| match callback_return(event).unwrap_err() {
        HyperlightError::Error(text) => text,
        other => panic!("unexpected {other:?}"),
    };
    assert_eq!(
        message(CallbackEvent::NotQueued("QueueFull".to_string())),
        "Host function call failed: QueueFull"
    );
    assert_eq!(message(CallbackEvent::ChannelClosed), "Channel closed");
    assert_eq!(message(CallbackEvent::Failed("boom".to_string())), "boom");
}

#[test]
fn buffers_are_copied_only_where_they_have_bytes() {
    assert_eq!(is_buffer(Some(true)), Ok(true));
    assert_eq!(is_buffer(Some(false)), Ok(false));
    assert_eq!(is_buffer(None), Err("Failed to check buffer type"));
    assert_eq!(bytes_to_copy(Some((0, true))), Ok(0));
    assert_eq!(bytes_to_copy(Some((3, false))), Ok(3));
    assert_eq!(
        bytes_to_copy(Some((3, true))),
        Err("Buffer has null data pointer with non-zero length - backing store may have been garbage collected")
    );
    assert_eq!(bytes_to_copy(None), Err("Failed to get buffer info"));
}
