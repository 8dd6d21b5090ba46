//! The stages of a sandbox as the bindings show them.

use std::time::Duration;

use hyperlight_js::host_api::error::{
    join_error, lock_error, to_napi_error, ErrorCode, ErrorKind, Failure,
};
use hyperlight_js::host_api::lifecycle::{
    CallHandlerOptions, JSSandboxWrapper, LoadedJSSandboxWrapper, Monitors, ProtoJSSandboxWrapper,
    SandboxBuilderWrapper, SandboxConfig,
};
use hyperlight_js::host_api::validate::{
    validate_module_identifier, validate_namespace_not_reserved,
};
use hyperlight_js::host_api::wording::Binding;
use hyperlight_js::sandbox::error::HyperlightError;
use hyperlight_js::sandbox::execution_stats::ExecutionStats;
use hyperlight_js::sandbox::js_sandbox::Script;

fn script() -> Script {
    Script::from_content("function handler(e) { return e; }")
}

#[test]
fn sizes_must_not_be_zero() {
    let mut node = SandboxBuilderWrapper::new(Binding::Node);
    let e = node.set_output_buffer_size(0).unwrap_err();
    assert_eq!(e.code(), ErrorCode::InvalidArg);
    assert_eq!(
        e.to_string(),
        "[ERR_INVALID_ARG] Output buffer size must be greater than 0"
    );
    let message = |r: Result<(), hyperlight_js::host_api::error::ApiError>| r.unwrap_err().to_string();
    assert_eq!(
        message(node.set_input_buffer_size(0)),
        "[ERR_INVALID_ARG] Input buffer size must be greater than 0"
    );
    assert_eq!(
        message(node.set_scratch_size(0)),
        "[ERR_INVALID_ARG] Scratch size must be greater than 0"
    );
    assert_eq!(
        message(node.set_heap_size(0)),
        "[ERR_INVALID_ARG] Heap size must be greater than 0"
    );
    let mut python = SandboxBuilderWrapper::new(Binding::Python);
    assert_eq!(
        message(python.set_heap_size(0)),
        "[ERR_INVALID_ARG] heap size must be greater than 0"
    );
}

#[test]
fn a_builder_is_used_once() {
    let mut builder = SandboxBuilderWrapper::new(Binding::Node);
    builder.set_heap_size(1).unwrap();
    builder.set_heap_size(8).unwrap();
    builder.set_scratch_size(4).unwrap();
    builder.set_host_print_fn(7).unwrap();
    assert_eq!(
        builder.build().unwrap(),
        SandboxConfig {
            output_buffer_size: None,
            input_buffer_size: None,
            scratch_size: Some(4),
            heap_size: Some(8),
            host_print_fn: Some(7),
        }
    );
    let e = builder.build().unwrap_err();
    assert_eq!(e.code(), ErrorCode::Consumed);
    assert_eq!(
        e.to_string(),
        "[ERR_CONSUMED] SandboxBuilder has already been consumed — each instance can only be used once"
    );
    assert_eq!(
        builder.set_heap_size(1).unwrap_err().code(),
        ErrorCode::Consumed
    );
    assert_eq!(
        builder.set_heap_size(0).unwrap_err().code(),
        ErrorCode::InvalidArg
    );
    assert_eq!(
        builder.set_host_print_fn(7).unwrap_err().code(),
        ErrorCode::Consumed
    );
}

#[test]
fn host_functions_are_registered_under_the_host_prefix() {
    let mut proto = ProtoJSSandboxWrapper::new(Binding::Node);
    let math = proto.host_module("math").unwrap();
    assert_eq!(math.name(), "host:math");
    proto.register_in(&math, "add".to_string(), 1).unwrap();
    proto.register("math", "mul".to_string(), 2).unwrap();
    proto.register("math", "add".to_string(), 3).unwrap();
    proto.register("io", "read".to_string(), 4).unwrap();
    assert_eq!(
        proto.register("", "f".to_string(), 5).unwrap_err().to_string(),
        "[ERR_INVALID_ARG] Module name must not be empty"
    );
    assert_eq!(
        proto.register("m", String::new(), 5).unwrap_err().to_string(),
        "[ERR_INVALID_ARG] Function name must not be empty"
    );
    let functions = proto.load_runtime().unwrap();
    assert_eq!(functions.len(), 2);
    let math = functions.get("host:math").unwrap();
    assert_eq!(math.len(), 2);
    assert_eq!(math.get("add"), Some(&3));
    assert_eq!(math.get("mul"), Some(&2));
    assert_eq!(functions.get("host:io").unwrap().get("read"), Some(&4));
    assert!(functions.get("host:m").is_none());
    assert_eq!(
        proto.register("math", "add".to_string(), 1).unwrap_err().to_string(),
        "[ERR_CONSUMED] ProtoJSSandbox has already been consumed — each instance can only be used once"
    );
    assert_eq!(proto.load_runtime().unwrap_err().code(), ErrorCode::Consumed);
    let python = ProtoJSSandboxWrapper::new(Binding::Python);
    assert_eq!(
        python.host_module("").unwrap_err().to_string(),
        "[ERR_INVALID_ARG] module name must not be empty"
    );
}

#[test]
fn host_modules_and_user_modules_do_not_collide() {
    let mut proto = ProtoJSSandboxWrapper::new(Binding::Node);
    proto.register("math", "add".to_string(), 1).unwrap();
    let mut sandbox = JSSandboxWrapper::new(Binding::Node);
    sandbox
        .add_module("math".to_string(), script(), None)
        .unwrap();
    assert!(sandbox
        .add_module("math".to_string(), script(), Some("host".to_string()))
        .is_err());
    let functions = proto.load_runtime().unwrap();
    assert_eq!(functions.names(), vec!["host:math"]);
    let plan = sandbox.get_loaded_sandbox().unwrap();
    assert_eq!(plan.modules[0].0, "user:math");
}

#[test]
fn handlers_are_checked_before_they_are_added() {
    let mut sandbox = JSSandboxWrapper::new(Binding::Node);
    sandbox.add_handler("h".to_string(), script()).unwrap();
    let e = sandbox.add_handler(String::new(), script()).unwrap_err();
    assert_eq!(
        e.to_string(),
        "[ERR_INVALID_ARG] Handler name must not be empty"
    );
    let e = sandbox.add_handler("h".to_string(), script()).unwrap_err();
    assert_eq!(e.code(), ErrorCode::Internal);
    assert_eq!(
        e.to_string(),
        "[ERR_INTERNAL] Handler already exists for function name: h"
    );
    sandbox.remove_handler("h").unwrap();
    assert_eq!(
        sandbox.remove_handler("h").unwrap_err().to_string(),
        "[ERR_INTERNAL] Handler does not exist for function name: h"
    );
    assert_eq!(
        sandbox.remove_handler("").unwrap_err().code(),
        ErrorCode::InvalidArg
    );
    let mut python = JSSandboxWrapper::new(Binding::Python);
    assert_eq!(
        python.add_handler(String::new(), script()).unwrap_err().to_string(),
        "[ERR_INVALID_ARG] handler name must not be empty"
    );
}

#[test]
fn modules_are_checked_before_they_are_added() {
    let mut sandbox = JSSandboxWrapper::new(Binding::Node);
    sandbox.add_module("m".to_string(), script(), None).unwrap();
    let e = sandbox
        .add_module("m".to_string(), script(), Some("user".to_string()))
        .unwrap_err();
    assert_eq!(e.to_string(), "[ERR_INTERNAL] Module already exists: user:m");
    let e = sandbox
        .add_module("m".to_string(), script(), Some("host".to_string()))
        .unwrap_err();
    assert_eq!(
        e.to_string(),
        "[ERR_INVALID_ARG] Module namespace 'host' is reserved"
    );
    let e = sandbox
        .remove_module("m", Some("host".to_string()))
        .unwrap_err();
    assert_eq!(e.to_string(), "[ERR_INTERNAL] Module does not exist: host:m");
    sandbox.remove_module("m", None).unwrap();
    sandbox.clear_handlers().unwrap();
    sandbox.clear_modules().unwrap();
    assert!(sandbox.check_available().is_ok());
}

#[test]
fn loading_uses_the_sandbox_up() {
    let mut sandbox = JSSandboxWrapper::new(Binding::Node);
    sandbox.add_handler("h".to_string(), script()).unwrap();
    let plan = sandbox.get_loaded_sandbox().unwrap();
    assert_eq!(plan.handlers.len(), 1);
    for e in [
        sandbox.get_loaded_sandbox().map(|_| ()),
        sandbox.add_handler("h".to_string(), script()),
        sandbox.remove_handler("h"),
        sandbox.clear_handlers(),
        sandbox.add_module("m".to_string(), script(), None),
        sandbox.remove_module("m", None),
        sandbox.clear_modules(),
        sandbox.check_available(),
    ] {
        assert_eq!(
            e.unwrap_err().to_string(),
            "[ERR_CONSUMED] JSSandbox has already been consumed — each instance can only be used once"
        );
    }
}

#[test]
fn loading_nothing_uses_the_sandbox_up_too() {
    let mut sandbox = JSSandboxWrapper::new(Binding::Python);
    let plan = sandbox.get_loaded_sandbox().unwrap();
    assert!(plan.handlers.is_empty() && plan.modules.is_empty());
    assert_eq!(
        sandbox.get_loaded_sandbox().unwrap_err().code(),
        ErrorCode::Consumed
    );
    let mut sandbox = JSSandboxWrapper::new(Binding::Python);
    sandbox.dispose();
    assert_eq!(
        sandbox.check_available().unwrap_err().code(),
        ErrorCode::Consumed
    );
}

#[test]
fn identifiers_are_checked_in_order() {
    let fault = |value: &str| {
        validate_module_identifier(value, "Module name")
            .unwrap_err()
            .to_string()
    };
    assert_eq!(fault(""), "[ERR_INVALID_ARG] Module name must not be empty");
    assert_eq!(fault(" \t\u{3000}"), "[ERR_INVALID_ARG] Module name must not be empty");
    for code in 0..=0xffffu32 {
        let Some(c) = char::from_u32(code) else { continue };
        let blank = matches!(
            code,
            0x09..=0x0d | 0x20 | 0x85 | 0xa0 | 0x1680 | 0x2000..=0x200a | 0x2028 | 0x2029 | 0x202f
                | 0x205f | 0x3000
        );
        let r = validate_module_identifier(&c.to_string(), "Module name");
        let says_blank = matches!(&r, Err(e) if e.to_string().ends_with("must not be empty"));
        assert_eq!(says_blank, blank, "U+{code:04X}");
    }
    assert_eq!(
        fault("a:\u{7}"),
        "[ERR_INVALID_ARG] Module name must not contain ':'"
    );
    for control in ['\0', '\u{1f}', '\u{7f}', '\u{80}', '\u{9f}'] {
        assert_eq!(
            fault(&format!("a{control}")),
            "[ERR_INVALID_ARG] Module name must not contain control characters"
        );
    }
    assert_eq!(
        fault(&"é".repeat(257)),
        "[ERR_INVALID_ARG] Module name must not exceed 256 characters"
    );
    assert!(validate_module_identifier(&"é".repeat(256), "Module name").is_ok());
    assert!(validate_module_identifier(" a\u{a0}b~ ", "Module name").is_ok());
    assert!(validate_namespace_not_reserved("hosts").is_ok());
    assert!(validate_namespace_not_reserved("host").is_err());
}

fn options(wall: Option<u32>, cpu: Option<u32>) -> CallHandlerOptions {
    CallHandlerOptions {
        wall_clock_timeout_ms: wall,
        cpu_timeout_ms: cpu,
        gc: None,
    }
}

#[test]
fn monitors_follow_the_timeouts() {
    let loaded = LoadedJSSandboxWrapper::new(Binding::Node, false);
    let monitors = |wall, cpu| {
        loaded
            .check_handler_call("h", &options(wall, cpu))
            .unwrap()
    };
    assert_eq!(monitors(None, None), Monitors::Unwatched);
    assert_eq!(monitors(Some(1), None), Monitors::WallClock(1));
    assert_eq!(monitors(None, Some(3_600_000)), Monitors::CpuTime(3_600_000));
    assert_eq!(
        monitors(Some(5000), Some(500)),
        Monitors::Both { wall_clock_ms: 5000, cpu_ms: 500 }
    );
}

#[test]
fn timeouts_have_limits() {
    let fault = |binding, name: &str, wall, cpu| {
        LoadedJSSandboxWrapper::new(binding, false)
            .check_handler_call(name, &options(wall, cpu))
            .unwrap_err()
            .to_string()
    };
    assert_eq!(
        fault(Binding::Node, "h", Some(0), Some(0)),
        "[ERR_INVALID_ARG] wallClockTimeoutMs must be between 1ms and 3600000ms, got 0"
    );
    assert_eq!(
        fault(Binding::Node, "h", None, Some(u32::MAX)),
        "[ERR_INVALID_ARG] cpuTimeoutMs must be between 1ms and 3600000ms, got 4294967295"
    );
    assert_eq!(
        fault(Binding::Python, "h", Some(3_600_001), None),
        "[ERR_INVALID_ARG] wall_clock_timeout_ms must be between 1 and 3600000, got 3600001"
    );
    assert_eq!(
        fault(Binding::Python, "h", Some(1), Some(0)),
        "[ERR_INVALID_ARG] cpu_timeout_ms must be between 1 and 3600000, got 0"
    );
    assert_eq!(
        fault(Binding::Python, "", Some(0), Some(0)),
        "[ERR_INVALID_ARG] handler name must not be empty"
    );
}

#[test]
fn handle_event_rejects_empty_name() {
    let mut sandbox = JSSandboxWrapper::new(Binding::Node);
    sandbox.add_handler("handler".to_string(), script()).unwrap();
    sandbox.get_loaded_sandbox().unwrap();
    let loaded = LoadedJSSandboxWrapper::new(Binding::Node, false);

    let event: serde_json::Value = serde_json::from_str("{}").unwrap();
    let result = loaded.begin_call(String::new(), &event, None);
    assert!(result.is_err(), "Empty handler name should be rejected");
    let err = result.unwrap_err().to_string();
    assert!(
        err.contains("must not be empty"),
        "Error should mention empty name, got: {err}"
    );
}

/// A loaded sandbox ready for evaluations. No handler is registered: evaluating needs none.
fn loaded() -> LoadedJSSandboxWrapper {
    let mut builder = SandboxBuilderWrapper::new(Binding::Python);
    builder.build().unwrap();
    let mut proto = ProtoJSSandboxWrapper::new(Binding::Python);
    proto.load_runtime().unwrap();
    let mut sandbox = JSSandboxWrapper::new(Binding::Python);
    sandbox.get_loaded_sandbox().unwrap();
    LoadedJSSandboxWrapper::new(Binding::Python, false)
}

#[test]
fn eval_rejects_empty_code() {
    let s = loaded();
    assert!(s.begin_eval(String::new(), CallHandlerOptions::default()).is_err());
}

#[test]
fn last_call_stats_is_none_before_any_call() {
    let loaded = LoadedJSSandboxWrapper::new(Binding::Node, false);
    assert!(
        loaded.last_call_stats().unwrap().is_none(),
        "Stats should be None before any call"
    );
}

#[test]
fn calls_carry_the_event_as_text() {
    let loaded = LoadedJSSandboxWrapper::new(Binding::Node, false);
    let event: serde_json::Value = serde_json::from_str("{ \"a\" : [ 1, 2.5 ] }").unwrap();
    let call = loaded
        .begin_call(
            "h".to_string(),
            &event,
            Some(CallHandlerOptions { gc: Some(false), ..options(Some(10), None) }),
        )
        .unwrap();
    assert_eq!(call.handler_name, "h");
    assert_eq!(call.event_json, "{\"a\":[1,2.5]}");
    assert_eq!(call.monitors, Monitors::WallClock(10));
    assert_eq!(call.gc, Some(false));
    let eval = loaded
        .begin_eval("1 + 1".to_string(), options(None, Some(3)))
        .unwrap();
    assert_eq!(eval.code, "1 + 1");
    assert_eq!(eval.monitors, Monitors::CpuTime(3));
}

#[test]
fn results_are_parsed_and_stats_kept() {
    let mut loaded = LoadedJSSandboxWrapper::new(Binding::Node, false);
    let stats = ExecutionStats {
        wall_clock: Duration::from_millis(3),
        cpu_time: None,
        terminated_by: None,
    };
    let value = loaded
        .finish_call(Ok("{\"x\": 1}".to_string()), false, Some(stats))
        .unwrap();
    assert_eq!(value.to_string(), "{\"x\":1}");
    assert_eq!(
        loaded.last_call_stats().unwrap().unwrap().wall_clock,
        Duration::from_millis(3)
    );
    assert!(!loaded.poisoned().unwrap());
}

#[test]
fn failures_are_kept_in_the_state() {
    let mut loaded = LoadedJSSandboxWrapper::new(Binding::Node, false);
    let stats = ExecutionStats {
        wall_clock: Duration::from_millis(500),
        cpu_time: Some(Duration::from_millis(499)),
        terminated_by: Some("cpu-time"),
    };
    let e = loaded
        .finish_call(
            Err(Failure {
                kind: ErrorKind::ExecutionCanceledByHost,
                text: "Execution was cancelled by the host.".to_string(),
            }),
            true,
            Some(stats),
        )
        .unwrap_err();
    assert_eq!(
        e.to_string(),
        "[ERR_CANCELLED] Execution was cancelled by the host."
    );
    assert!(loaded.poisoned().unwrap());
    assert_eq!(
        loaded.last_call_stats().unwrap().unwrap().terminated_by,
        Some("cpu-time")
    );
    assert_eq!(loaded.finish_access(Ok(7u8), false).unwrap(), 7);
    assert!(!loaded.poisoned().unwrap());
    assert!(loaded.last_call_stats().unwrap().is_some());
}

#[test]
fn results_that_are_not_json_are_internal_errors() {
    let mut node = LoadedJSSandboxWrapper::new(Binding::Node, false);
    let e = node.finish_call(Ok("x".to_string()), false, None).unwrap_err();
    assert_eq!(
        e.to_string(),
        "[ERR_INTERNAL] Failed to parse handler result as JSON: expected value at line 1 column 1"
    );
    let mut python = LoadedJSSandboxWrapper::new(Binding::Python, false);
    let e = python.finish_eval(Ok("x".to_string()), false, None).unwrap_err();
    assert_eq!(
        e.to_string(),
        "[ERR_INTERNAL] failed to parse eval result as JSON: expected value at line 1 column 1"
    );
}

#[test]
fn a_loaded_sandbox_is_unloaded_once() {
    let event: serde_json::Value = serde_json::from_str("null").unwrap();
    let mut node = LoadedJSSandboxWrapper::new(Binding::Node, true);
    node.unload().unwrap();
    assert_eq!(node.unload().unwrap_err().code(), ErrorCode::Consumed);
    assert_eq!(
        node.begin_call("h".to_string(), &event, None).unwrap_err().to_string(),
        "[ERR_CONSUMED] LoadedJSSandbox has already been consumed — each instance can only be used once"
    );
    assert!(node.poisoned().unwrap());
    let mut python = LoadedJSSandboxWrapper::new(Binding::Python, true);
    assert!(python.poisoned().unwrap());
    python.dispose();
    assert_eq!(python.poisoned().unwrap_err().code(), ErrorCode::Consumed);
    assert_eq!(python.last_call_stats().unwrap_err().code(), ErrorCode::Consumed);
    assert_eq!(
        python
            .begin_eval("1".to_string(), CallHandlerOptions::default())
            .unwrap_err()
            .code(),
        ErrorCode::Consumed
    );
    assert_eq!(
        python.finish_access::<()>(
            Err(Failure { kind: ErrorKind::PoisonedSandbox, text: "The sandbox was poisoned".to_string() }),
            true
        ).unwrap_err().to_string(),
        "[ERR_POISONED] The sandbox was poisoned"
    );
}

#[test]
fn errors_of_the_sandbox_are_reported_with_their_text() {
    let reported = |e: HyperlightError| to_napi_error(&Failure::from_error(&e)).to_string();
    assert_eq!(
        reported(HyperlightError::Error("e".to_string())),
        "[ERR_INTERNAL] e"
    );
    assert_eq!(
        reported(HyperlightError::JsonConversionFailure(
            serde_json::from_str::<u8>("x").unwrap_err()
        )),
        "[ERR_INVALID_ARG] Conversion of str data to json failed"
    );
    assert_eq!(
        reported(HyperlightError::PoisonedSandbox),
        "[ERR_POISONED] The sandbox was poisoned"
    );
    assert_eq!(
        reported(HyperlightError::ExecutionCanceledByHost),
        "[ERR_CANCELLED] Execution was cancelled by the host."
    );
    assert_eq!(
        reported(HyperlightError::GuestAborted(13, "out of memory".to_string())),
        "[ERR_GUEST_ABORT] Guest aborted: 13 out of memory"
    );
    assert_eq!(
        reported(HyperlightError::Other("o".to_string())),
        "[ERR_INTERNAL] o"
    );
}

#[test]
fn failures_have_their_codes() {
    let code = |kind| {
        to_napi_error(&Failure { kind, text: "t".to_string() })
            .to_string()
    };
    assert_eq!(code(ErrorKind::PoisonedSandbox), "[ERR_POISONED] t");
    assert_eq!(code(ErrorKind::ExecutionCanceledByHost), "[ERR_CANCELLED] t");
    assert_eq!(code(ErrorKind::JsonConversionFailure), "[ERR_INVALID_ARG] t");
    assert_eq!(code(ErrorKind::GuestAborted), "[ERR_GUEST_ABORT] t");
    assert_eq!(code(ErrorKind::Error), "[ERR_INTERNAL] t");
    assert_eq!(code(ErrorKind::Other), "[ERR_INTERNAL] t");
    assert_eq!(
        lock_error(Binding::Node).to_string(),
        "[ERR_INTERNAL] Internal lock poisoned — this is a bug"
    );
    assert_eq!(
        lock_error(Binding::Python).to_string(),
        "[ERR_INTERNAL] internal lock poisoned — this is a bug"
    );
    assert_eq!(
        join_error("panicked").to_string(),
        "[ERR_INTERNAL] Background task failed: panicked"
    );
    assert_eq!(ErrorCode::GuestAbort.as_code(), "ERR_GUEST_ABORT");
}
