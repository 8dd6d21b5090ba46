//! Values and results of host functions in Python.

use hyperlight_js::common::FnReturn;
use hyperlight_js::host_api::python::{
    bin_placeholder, json_number_from_f64, json_to_py, print_status, py_args,
    py_return_to_fnreturn, py_to_json, raised_error, PyFault, PyKey, PyProbe, PyReturn,
    PyReturnError, PyText, PyValue,
};
use hyperlight_js::json::{Json, JsonNumber};
use hyperlight_js::sandbox::host_fn::Function;

fn shown<T: std::fmt::Debug>(value: &T) -> String {
    format!("{value:?}")
}

fn nothing() -> PyProbe {
    PyProbe {
        none: false,
        boolean: None,
        int: None,
        uint: None,
        float: None,
        text: None,
        list: None,
        tuple: None,
        dict: None,
    }
}

fn number(n: i64) -> PyProbe {
    PyProbe {
        int: Some(n),
        uint: if n >= 0 { Some(n as u64) } else { None },
        float: Some((n as f64).to_bits()),
        ..nothing()
    }
}

fn string(s: &str) -> PyProbe {
    PyProbe {
        text: Some(PyText::Text(s.to_string())),
        ..nothing()
    }
}

fn key(s: &str) -> PyKey {
    PyKey::Text(PyText::Text(s.to_string()))
}

fn json(obj: &PyProbe) -> String {
    shown(&py_to_json(obj).unwrap())
}

#[test]
fn booleans_are_no_integers() {
    let truth = PyProbe {
        boolean: Some(true),
        ..number(1)
    };
    assert_eq!(json(&truth), shown(&Json::Bool(true)));
    assert_eq!(
        json(&number(1)),
        shown(&Json::Number(JsonNumber::PosInt(1)))
    );
}

#[test]
fn numbers_take_the_first_type_that_fits() {
    assert_eq!(
        json(&number(-5)),
        shown(&Json::Number(JsonNumber::NegInt(-5)))
    );
    let big = PyProbe {
        uint: Some(u64::MAX),
        float: Some((u64::MAX as f64).to_bits()),
        ..nothing()
    };
    assert_eq!(json(&big), shown(&Json::Number(JsonNumber::PosInt(u64::MAX))));
    let float = PyProbe {
        float: Some(1.0f64.to_bits()),
        ..nothing()
    };
    assert_eq!(
        json(&float),
        shown(&Json::Number(JsonNumber::Float(1.0f64.to_bits())))
    );
}

#[test]
fn containers_are_converted_in_order() {
    let list = PyProbe {
        list: Some(vec![number(1), string("a")]),
        ..nothing()
    };
    let tuple = PyProbe {
        tuple: Some(vec![number(1), string("a")]),
        ..nothing()
    };
    assert_eq!(json(&list), json(&tuple));
    let dict = PyProbe {
        dict: Some(vec![(key("k"), list), (key("n"), PyProbe { none: true, ..nothing() })]),
        ..nothing()
    };
    assert_eq!(
        json(&dict),
        shown(&Json::Object(vec![
            (
                "k".to_string(),
                Json::Array(vec![
                    Json::Number(JsonNumber::PosInt(1)),
                    Json::String("a".to_string())
                ])
            ),
            ("n".to_string(), Json::Null),
        ]))
    );
}

#[test]
fn every_python_fault_has_its_message() {
    let fault = |obj: &PyProbe| py_to_json(obj).unwrap_err();
    let infinite = PyProbe {
        float: Some(f64::INFINITY.to_bits()),
        ..nothing()
    };
    assert_eq!(fault(&infinite), PyFault::NonFinite);
    assert_eq!(
        fault(&infinite).to_error().unwrap().to_string(),
        "[ERR_INVALID_ARG] non-finite float (NaN/Infinity) cannot be represented in JSON"
    );
    let keys = PyProbe {
        dict: Some(vec![(PyKey::NotAString, infinite)]),
        ..nothing()
    };
    assert_eq!(
        fault(&keys).to_error().unwrap().to_string(),
        "[ERR_INVALID_ARG] dict keys must be strings to convert to JSON"
    );
    assert_eq!(
        fault(&nothing()).to_error().unwrap().to_string(),
        "[ERR_INVALID_ARG] unsupported value for JSON conversion (expected None/bool/int/float/str/list/tuple/dict)"
    );
    let raised = PyProbe {
        text: Some(PyText::Raised),
        ..nothing()
    };
    assert!(fault(&raised).to_error().is_none());
    let raised = PyProbe {
        dict: Some(vec![(PyKey::Text(PyText::Raised), nothing())]),
        ..nothing()
    };
    assert_eq!(fault(&raised), PyFault::Raised);
}

#[test]
fn floats_must_be_finite() {
    assert_eq!(
        shown(&json_number_from_f64(2.5f64.to_bits()).unwrap()),
        shown(&Json::Number(JsonNumber::Float(2.5f64.to_bits())))
    );
    assert_eq!(
        json_number_from_f64(f64::NAN.to_bits()).unwrap_err(),
        PyFault::NonFinite
    );
}

fn placeholder(index: u64) -> Vec<(String, Json)> {
    vec![(
        "__bin__".to_string(),
        Json::Number(JsonNumber::PosInt(index)),
    )]
}

#[test]
fn placeholders_become_bytes_where_there_is_a_blob() {
    let blobs = vec![vec![1u8, 2]];
    assert_eq!(bin_placeholder(&placeholder(0), Some(&blobs)), Some(&[1u8, 2][..]));
    assert_eq!(bin_placeholder(&placeholder(1), Some(&blobs)), None);
    assert_eq!(bin_placeholder(&placeholder(0), None), None);
    assert_eq!(
        shown(&json_to_py(&Json::Object(placeholder(0)), Some(&blobs))),
        shown(&PyValue::Bytes(vec![1, 2]))
    );
    assert_eq!(
        shown(&json_to_py(&Json::Object(placeholder(1)), Some(&blobs))),
        shown(&PyValue::Dict(vec![("__bin__".to_string(), PyValue::Int(1))]))
    );
    assert_eq!(
        shown(&json_to_py(&Json::Object(placeholder(0)), None)),
        shown(&PyValue::Dict(vec![("__bin__".to_string(), PyValue::Int(0))]))
    );
}

#[test]
fn numbers_keep_their_type() {
    let py = |n| shown(&json_to_py(&Json::Number(n), None));
    assert_eq!(py(JsonNumber::NegInt(-1)), shown(&PyValue::Int(-1)));
    assert_eq!(
        py(JsonNumber::PosInt(9223372036854775807)),
        shown(&PyValue::Int(i64::MAX))
    );
    assert_eq!(
        py(JsonNumber::PosInt(9223372036854775808)),
        shown(&PyValue::UInt(9223372036854775808))
    );
    assert_eq!(
        py(JsonNumber::Float(0.5f64.to_bits())),
        shown(&PyValue::Float(0.5f64.to_bits()))
    );
}

#[test]
fn arguments_are_spread() {
    let blobs = vec![vec![7u8]];
    let args = py_args(
        &Json::Array(vec![Json::Null, Json::Object(placeholder(0))]),
        &blobs,
    );
    assert_eq!(
        shown(&args),
        shown(&vec![PyValue::Null, PyValue::Bytes(vec![7])])
    );
    let args = py_args(&Json::String("one".to_string()), &blobs);
    assert_eq!(shown(&args), shown(&vec![PyValue::Str("one".to_string())]));
}

/// Turns the values that the tests use into `serde_json` values.
struct Encoder;

impl Function<serde_json::Value, Json> for Encoder {
    fn call(&self, json: Json) -> serde_json::Value {
        match json {
            Json::Bool(b) => serde_json::Value::Bool(b),
            Json::String(s) => serde_json::Value::String(s),
            other => panic!("unexpected {other:?}"),
        }
    }
}

#[test]
fn results_are_sent_as_bytes_or_json() {
    let send = |result| py_return_to_fnreturn(result, &Encoder);
    match send(PyReturn::Bytes(vec![1])).unwrap() {
        FnReturn::Binary(bytes) => assert_eq!(bytes, vec![1]),
        other => panic!("unexpected {other:?}"),
    }
    match send(PyReturn::ByteArray(vec![2])).unwrap() {
        FnReturn::Binary(bytes) => assert_eq!(bytes, vec![2]),
        other => panic!("unexpected {other:?}"),
    }
    match send(PyReturn::Other(PyProbe { none: true, ..nothing() })).unwrap() {
        FnReturn::Json(text) => assert_eq!(text, "null"),
        other => panic!("unexpected {other:?}"),
    }
    match send(PyReturn::Other(PyProbe { boolean: Some(true), ..nothing() })).unwrap() {
        FnReturn::Json(text) => assert_eq!(text, "true"),
        other => panic!("unexpected {other:?}"),
    }
    assert!(matches!(
        send(PyReturn::Other(nothing())).unwrap_err(),
        PyReturnError::Fault(PyFault::Unsupported)
    ));
    match send(PyReturn::Other(string("a\"b"))).unwrap() {
        FnReturn::Json(text) => assert_eq!(text, r#""a\"b""#),
        other => panic!("unexpected {other:?}"),
    }
}

#[test]
fn raising_is_an_error_of_the_function() {
    assert_eq!(
        raised_error("f", "ValueError: no").to_string(),
        "host function 'f' raised: ValueError: no"
    );
    assert_eq!(print_status(false), 0);
    assert_eq!(print_status(true), -1);
}
