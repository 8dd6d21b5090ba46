//! Values between guest JavaScript and the host.

use hyperlight_js::common::{decode_binaries, encode_binaries, MAX_JSON_DEPTH};
use hyperlight_js::double::{as_whole_i64, finite};
use hyperlight_js::json::{Json, JsonNumber};
use hyperlight_js::runtime::values::{
    extract_binaries, json_to_plain_value, json_to_value_with_blobs, value_to_json_with_binaries,
    GuestValue, JsValue, ValueFault,
};

fn text(s: &str) -> JsValue {
    JsValue::String(s.to_string())
}

fn convert(value: JsValue) -> Json {
    value_to_json_with_binaries(value, &mut Vec::new(), 0).unwrap()
}

fn shown<T: std::fmt::Debug>(value: &T) -> String {
    format!("{value:?}")
}

fn placeholder(index: u64) -> Json {
    Json::Object(vec![(
        "__bin__".to_string(),
        Json::Number(JsonNumber::PosInt(index)),
    )])
}

#[test]
fn scalars_keep_their_meaning() {
    assert_eq!(shown(&convert(JsValue::Undefined)), shown(&Json::Null));
    assert_eq!(shown(&convert(JsValue::Null)), shown(&Json::Null));
    assert_eq!(shown(&convert(JsValue::Bool(true))), shown(&Json::Bool(true)));
    assert_eq!(
        shown(&convert(JsValue::Int(-3))),
        shown(&Json::Number(JsonNumber::NegInt(-3)))
    );
    assert_eq!(
        shown(&convert(JsValue::Int(0))),
        shown(&Json::Number(JsonNumber::PosInt(0)))
    );
    assert_eq!(
        shown(&convert(text("a"))),
        shown(&Json::String("a".to_string()))
    );
    assert_eq!(
        shown(&convert(JsValue::Other(Json::Bool(false)))),
        shown(&Json::Bool(false))
    );
}

#[test]
fn whole_floats_become_integers() {
    let number = |x: f64| shown(&convert(JsValue::Float(x.to_bits())));
    assert_eq!(number(42.0), shown(&Json::Number(JsonNumber::PosInt(42))));
    assert_eq!(number(-7.0), shown(&Json::Number(JsonNumber::NegInt(-7))));
    assert_eq!(number(-0.0), shown(&Json::Number(JsonNumber::PosInt(0))));
    assert_eq!(
        number(0.5),
        shown(&Json::Number(JsonNumber::Float(0.5f64.to_bits())))
    );
    assert_eq!(
        number(1e300),
        shown(&Json::Number(JsonNumber::Float(1e300f64.to_bits())))
    );
    assert_eq!(number(f64::NAN), shown(&Json::Null));
    assert_eq!(number(f64::INFINITY), shown(&Json::Null));
    assert_eq!(number(f64::NEG_INFINITY), shown(&Json::Null));
    assert_eq!(
        number(9223372036854775808.0),
        shown(&Json::Number(JsonNumber::Float(
            9223372036854775808.0f64.to_bits()
        )))
    );
    assert_eq!(
        number(-9223372036854775808.0),
        shown(&Json::Number(JsonNumber::NegInt(i64::MIN)))
    );
}

/// What the arithmetic of doubles says of a whole number.
fn by_arithmetic(n: f64) -> Option<i64> {
    if n.is_finite() && n == n.trunc() && n >= i64::MIN as f64 && n < 9223372036854775808.0 {
        Some(n as i64)
    } else {
        None
    }
}

#[test]
fn whole_number_test_agrees_with_arithmetic() {
    let mut samples: Vec<f64> = vec![
        0.0,
        -0.0,
        1.0,
        1.5,
        2.0f64.powi(52),
        2.0f64.powi(52) + 1.0,
        2.0f64.powi(53),
        2.0f64.powi(62),
        2.0f64.powi(63),
        -(2.0f64.powi(63)),
        2.0f64.powi(63) + 2048.0,
        2.0f64.powi(64),
        9223372036854774784.0,
        f64::MIN_POSITIVE,
        5e-324,
        f64::MAX,
        f64::MIN,
        f64::NAN,
        f64::INFINITY,
    ];
    let mut bits: u64 = 0x9e37_79b9_7f4a_7c15;
    for _ in 0..20000 {
        bits = bits.wrapping_mul(6364136223846793005).wrapping_add(1442695040888963407);
        samples.push(f64::from_bits(bits));
        samples.push(((bits >> 40) as f64) / 8.0);
        samples.push(-((bits >> 1) as f64));
    }
    for x in samples {
        assert_eq!(as_whole_i64(x.to_bits()), by_arithmetic(x), "for {x:e}");
        assert_eq!(finite(x.to_bits()), x.is_finite());
    }
}

#[test]
fn byte_arrays_go_to_the_sidecar_in_order() {
    let args = vec![
        JsValue::Uint8Array(vec![1, 2]),
        JsValue::Object(vec![
            ("a".to_string(), JsValue::Array(vec![JsValue::Uint8Array(vec![])])),
            ("b".to_string(), JsValue::Uint8Array(vec![3])),
        ]),
    ];
    let (json, blobs) = extract_binaries(args).unwrap();
    assert_eq!(blobs, vec![vec![1, 2], vec![], vec![3]]);
    assert_eq!(shown(&json[0]), shown(&placeholder(0)));
    assert_eq!(
        shown(&json[1]),
        shown(&Json::Object(vec![
            ("a".to_string(), Json::Array(vec![placeholder(1)])),
            ("b".to_string(), placeholder(2)),
        ]))
    );
}

#[test]
fn arguments_come_back_with_their_bytes() {
    let args = vec![JsValue::Object(vec![
        ("bytes".to_string(), JsValue::Uint8Array(vec![9, 8, 7])),
        ("list".to_string(), JsValue::Array(vec![JsValue::Int(1), JsValue::Undefined])),
        ("x".to_string(), JsValue::Float(2.5f64.to_bits())),
    ])];
    let (mut json, blobs) = extract_binaries(args).unwrap();
    let sent = decode_binaries(&encode_binaries(&blobs).unwrap()).unwrap();
    let back = json_to_value_with_blobs(json.remove(0), &sent, 0).unwrap();
    assert_eq!(
        shown(&back),
        shown(&GuestValue::Object(vec![
            ("bytes".to_string(), GuestValue::Uint8Array(vec![9, 8, 7])),
            ("list".to_string(), GuestValue::Array(vec![GuestValue::Int(1), GuestValue::Null])),
            (
                "x".to_string(),
                GuestValue::Double(JsonNumber::Float(2.5f64.to_bits()))
            ),
        ]))
    );
}

#[test]
fn of_two_members_with_one_key_the_later_counts() {
    let json = convert(JsValue::Object(vec![
        ("k".to_string(), JsValue::Int(1)),
        ("l".to_string(), JsValue::Int(2)),
        ("k".to_string(), JsValue::Int(3)),
    ]));
    assert_eq!(
        shown(&json),
        shown(&Json::Object(vec![
            ("k".to_string(), Json::Number(JsonNumber::PosInt(3))),
            ("l".to_string(), Json::Number(JsonNumber::PosInt(2))),
        ]))
    );
}

fn nested_js(depth: usize) -> JsValue {
    let mut value = JsValue::Null;
    for _ in 0..depth {
        value = JsValue::Array(vec![value]);
    }
    value
}

fn nested_json(depth: usize) -> Json {
    let mut value = Json::Null;
    for _ in 0..depth {
        value = Json::Array(vec![value]);
    }
    value
}

#[test]
fn nesting_is_limited() {
    assert!(value_to_json_with_binaries(nested_js(MAX_JSON_DEPTH), &mut Vec::new(), 0).is_ok());
    let fault =
        value_to_json_with_binaries(nested_js(MAX_JSON_DEPTH + 1), &mut Vec::new(), 0).unwrap_err();
    assert_eq!(fault, ValueFault::TooDeep);
    assert_eq!(
        fault.message().unwrap(),
        "JSON nesting depth exceeds maximum (64)"
    );
    assert!(json_to_plain_value(nested_json(MAX_JSON_DEPTH), 0).is_ok());
    assert_eq!(
        json_to_plain_value(nested_json(MAX_JSON_DEPTH + 1), 0).unwrap_err(),
        ValueFault::TooDeep
    );
}

#[test]
fn what_cannot_be_read_is_reported_at_any_depth() {
    let mut value = JsValue::Unreadable;
    for _ in 0..MAX_JSON_DEPTH + 1 {
        value = JsValue::Array(vec![value]);
    }
    assert_eq!(
        value_to_json_with_binaries(value, &mut Vec::new(), 0).unwrap_err(),
        ValueFault::Unreadable
    );
}

#[test]
fn what_cannot_be_read_stops_the_conversion() {
    let mut blobs = Vec::new();
    let value = JsValue::Array(vec![
        JsValue::Uint8Array(vec![1]),
        JsValue::Unreadable,
        JsValue::Uint8Array(vec![2]),
    ]);
    let fault = value_to_json_with_binaries(value, &mut blobs, 0).unwrap_err();
    assert_eq!(fault, ValueFault::Unreadable);
    assert!(fault.message().is_none());
    assert_eq!(blobs, vec![vec![1]]);
}

#[test]
fn placeholders_out_of_bounds_are_refused() {
    let fault = json_to_value_with_blobs(placeholder(2), &vec![vec![], vec![]], 0).unwrap_err();
    assert_eq!(fault, ValueFault::NoSuchBlob { index: 2, blobs: 2 });
    assert_eq!(
        fault.message().unwrap(),
        "Binary placeholder index 2 out of bounds (have 2 blobs)"
    );
}

#[test]
fn only_exact_placeholders_are_resolved() {
    let blobs = vec![vec![5u8]];
    let resolve = |json| shown(&json_to_value_with_blobs(json, &blobs, 0).unwrap());
    assert_eq!(
        resolve(placeholder(0)),
        shown(&GuestValue::Uint8Array(vec![5]))
    );
    let with = |value| Json::Object(vec![("__bin__".to_string(), value)]);
    assert!(resolve(with(Json::Number(JsonNumber::NegInt(-1)))).starts_with("Object"));
    assert!(resolve(with(Json::Number(JsonNumber::Float(0.0f64.to_bits())))).starts_with("Object"));
    assert!(resolve(with(Json::String("0".to_string()))).starts_with("Object"));
    assert!(resolve(Json::Object(vec![
        ("__bin__".to_string(), Json::Number(JsonNumber::PosInt(0))),
        ("x".to_string(), Json::Null),
    ]))
    .starts_with("Object"));
    assert_eq!(
        shown(&json_to_plain_value(placeholder(0), 0).unwrap()),
        shown(&GuestValue::Object(vec![(
            "__bin__".to_string(),
            GuestValue::Int(0)
        )]))
    );
}

#[test]
fn integers_beyond_32_bits_become_doubles() {
    let number = |n| shown(&json_to_plain_value(Json::Number(n), 0).unwrap());
    assert_eq!(
        number(JsonNumber::PosInt(2147483647)),
        shown(&GuestValue::Int(i32::MAX))
    );
    assert_eq!(
        number(JsonNumber::PosInt(2147483648)),
        shown(&GuestValue::Double(JsonNumber::PosInt(2147483648)))
    );
    assert_eq!(
        number(JsonNumber::NegInt(-2147483648)),
        shown(&GuestValue::Int(i32::MIN))
    );
    assert_eq!(
        number(JsonNumber::NegInt(-2147483649)),
        shown(&GuestValue::Double(JsonNumber::NegInt(-2147483649)))
    );
    assert_eq!(
        number(JsonNumber::PosInt(u64::MAX)),
        shown(&GuestValue::Double(JsonNumber::PosInt(u64::MAX)))
    );
}
