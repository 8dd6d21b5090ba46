//! Host modules on the host side.

use hyperlight_js::common::{
    decode_return, encode_binaries, FnReturn, TAG_BINARY, TAG_JSON, TAG_JSON_WITH_BINARIES,
};
use hyperlight_js::sandbox::error::HyperlightError;
use hyperlight_js::sandbox::host_fn::{
    decode_binaries, encode_fn_return, BridgeArgs, BridgeResult, Function, HostModule, TypedResult,
};

/// Adds two integers that are given as a JSON array.
#[derive(Clone)]
struct Add;

impl Function<TypedResult, String> for Add {
    fn call(&self, args: String) -> TypedResult {
        let (a, b): (i32, i32) =
            serde_json::from_str(&args).map_err(HyperlightError::JsonConversionFailure)?;
        Ok(serde_json::to_string(&(a + b)).unwrap())
    }
}

/// Bridge functions for the tests.
#[derive(Clone)]
enum Bridge {
    /// Gives the arguments back as JSON text, and the blobs as a sidecar.
    Echo,
    /// Gives the first blob back.
    FirstBlob,
    /// Gives the arguments back as JSON text.
    Text,
    /// Fails.
    Fail,
}

impl Function<BridgeResult, BridgeArgs> for Bridge {
    fn call(&self, args: BridgeArgs) -> BridgeResult {
        let (value, blobs) = args;
        match self {
            Bridge::Echo => Ok(FnReturn::JsonWithBinaries(
                value.to_string(),
                encode_binaries(&blobs).unwrap(),
            )),
            Bridge::FirstBlob => Ok(FnReturn::Binary(blobs[0].clone())),
            Bridge::Text => Ok(FnReturn::Json(value.to_string())),
            Bridge::Fail => Err(HyperlightError::Error("out of order".to_string())),
        }
    }
}

fn module() -> HostModule<Add, Bridge> {
    HostModule::default()
}

#[test]
fn call_typed_no_binaries() {
    let mut module = module();
    module.register("add", Add);

    // count=0 sidecar
    let sidecar = vec![0u8, 0, 0, 0];
    let result = module
        .call("add", "[3,4]".to_string(), Some(sidecar))
        .unwrap();
    assert_eq!(result[0], TAG_JSON);
    assert_eq!(&result[1..], b"7");
}

#[test]
fn call_typed_rejects_binary_args() {
    let mut module = module();
    module.register("add", Add);

    // Sidecar with one blob — typed functions should reject this
    let sidecar = encode_binaries(&[b"ABC" as &[u8]]).unwrap();
    let err = module
        .call("add", "[1,2]".to_string(), Some(sidecar))
        .unwrap_err();
    assert!(err.to_string().contains("binary argument"));
    assert!(err.to_string().contains("register_js"));
}

#[test]
fn call_not_found() {
    let module = module();
    let err = module.call("nope", "[]".to_string(), None).unwrap_err();
    assert!(err.to_string().contains("not found"));
}

#[test]
fn typed_rejection_counts_the_blobs() {
    let mut module = module();
    module.register("add", Add);
    let sidecar = encode_binaries(&[b"A" as &[u8], b"B"]).unwrap();
    let err = module
        .call("add", "[1,2]".to_string(), Some(sidecar))
        .unwrap_err();
    assert_eq!(
        err.to_string(),
        "Function 'add' received 2 binary argument(s) but was registered with `register` \
         (typed JSON-only). Use `register_js` for functions that accept Uint8Array/Buffer \
         arguments."
    );
}

#[test]
fn sidecar_is_read_before_the_function_is_looked_up() {
    let module = module();
    let err = module
        .call("nope", "[]".to_string(), Some(vec![1, 2, 3]))
        .unwrap_err();
    assert_eq!(err.to_string(), "Binary sidecar too short for count header");
}

#[test]
fn bridge_gets_parsed_arguments_and_blobs() {
    let mut module = module();
    module.register_js("echo", Bridge::Echo);
    let sidecar = encode_binaries(&[b"hello" as &[u8], b""]).unwrap();
    let result = module
        .call(
            "echo",
            r#" [ {"__bin__" : 0} , 1.0 ] "#.to_string(),
            Some(sidecar.clone()),
        )
        .unwrap();
    assert_eq!(result[0], TAG_JSON_WITH_BINARIES);
    match decode_return(&result).unwrap() {
        FnReturn::JsonWithBinaries(json, packed) => {
            assert_eq!(json, r#"[{"__bin__":0},1.0]"#);
            assert_eq!(packed, sidecar);
        }
        _ => panic!("expected JSON with binaries"),
    }
}

#[test]
fn bridge_returns_are_tagged_by_kind() {
    let mut module = module();
    module
        .register_js("first", Bridge::FirstBlob)
        .register_js("text", Bridge::Text);
    let sidecar = encode_binaries(&[&[0u8, 255][..]]).unwrap();
    let binary = module
        .call("first", "[]".to_string(), Some(sidecar))
        .unwrap();
    assert_eq!(binary, vec![TAG_BINARY, 0, 255]);
    let text = module.call("text", "null".to_string(), None).unwrap();
    assert_eq!(text, b"\0null");
}

#[test]
fn bridge_rejects_text_that_is_not_json() {
    let mut module = module();
    module.register_js("text", Bridge::Text);
    let err = module
        .call("text", "not json".to_string(), None)
        .unwrap_err();
    assert!(matches!(err, HyperlightError::JsonConversionFailure(_)));
    assert_eq!(err.to_string(), "Conversion of str data to json failed");
}

#[test]
fn errors_of_functions_pass_through() {
    let mut module = module();
    module.register("add", Add).register_js("fail", Bridge::Fail);
    let err = module.call("fail", "[]".to_string(), None).unwrap_err();
    assert_eq!(err.to_string(), "out of order");
    let err = module
        .call("add", r#"["x"]"#.to_string(), None)
        .unwrap_err();
    assert!(matches!(err, HyperlightError::JsonConversionFailure(_)));
}

#[test]
fn registering_again_replaces_the_function() {
    let mut module = module();
    module.register("f", Add);
    module.register_js("f", Bridge::Text);
    assert_eq!(module.function_names(), vec!["f"]);
    let result = module.call("f", "[3,4]".to_string(), None).unwrap();
    assert_eq!(&result[1..], b"[3,4]");
}

#[test]
fn function_names_lists_each_once() {
    let mut module = module();
    module.register("b", Add);
    module.register("a", Add);
    module.register("b", Add);
    let mut names = module.function_names();
    names.sort();
    assert_eq!(names, vec!["a", "b"]);
}

#[test]
fn decode_binaries_reports_the_framing_error() {
    assert_eq!(
        decode_binaries(&[1, 0, 0, 0, 2, 0, 0, 0, 7, 8]).unwrap(),
        vec![vec![7u8, 8]]
    );
    let err = decode_binaries(&[0, 0, 0, 0, 9]).unwrap_err();
    assert_eq!(
        err.to_string(),
        "Binary sidecar has 1 trailing bytes after all 0 blobs"
    );
}

#[test]
fn encode_fn_return_keeps_text_and_sidecar_apart() {
    let buf = encode_fn_return(FnReturn::JsonWithBinaries("{}".to_string(), vec![9, 8])).unwrap();
    assert_eq!(buf, vec![2, 2, 0, 0, 0, 9, 8, b'{', b'}']);
}

#[test]
fn a_clone_has_the_same_functions_and_lives_on_its_own() {
    let mut first = module();
    first.register("add", Add).register_js("text", Bridge::Text);
    let mut second = first.clone();
    second.register_js("add", Bridge::Text);
    second.register("more", Add);
    let args = || "[3,4]".to_string();
    assert_eq!(first.call("add", args(), None).unwrap(), b"\x007");
    assert_eq!(first.call("text", args(), None).unwrap(), b"\0[3,4]");
    assert_eq!(first.function_names().len(), 2);
    assert_eq!(second.call("add", args(), None).unwrap(), b"\0[3,4]");
    assert_eq!(second.call("text", args(), None).unwrap(), b"\0[3,4]");
    assert_eq!(second.call("more", args(), None).unwrap(), b"\x007");
}
