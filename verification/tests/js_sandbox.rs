//! Handlers and modules of a sandbox.

use hyperlight_js::sandbox::js_sandbox::{JSSandbox, Script};

#[test]
fn test_add_handler() {
    let mut sandbox = JSSandbox::new();
    sandbox.add_handler("handler1", Script::from_content("script1")).unwrap();
    sandbox.add_handler("handler2", Script::from_content("script2")).unwrap();

    assert_eq!(sandbox.get_number_of_handlers(), 2);
}

#[test]
fn test_remove_handler() {
    let mut sandbox = JSSandbox::new();
    sandbox.add_handler("handler1", Script::from_content("script1")).unwrap();
    sandbox.add_handler("handler2", Script::from_content("script2")).unwrap();

    sandbox.remove_handler("handler1").unwrap();

    assert_eq!(sandbox.get_number_of_handlers(), 1);
}

#[test]
fn test_clear_handlers() {
    let mut sandbox = JSSandbox::new();
    sandbox.add_handler("handler1", Script::from_content("script1")).unwrap();
    sandbox.add_handler("handler2", Script::from_content("script2")).unwrap();

    sandbox.clear_handlers();

    assert_eq!(sandbox.get_number_of_handlers(), 0);
}

#[test]
fn test_get_loaded_sandbox() {
    let mut sandbox = JSSandbox::new();
    sandbox
        .add_handler(
            "handler1",
            Script::from_content(
                r#"function handler(event) {
                event.request.uri = "/redirected.html";
                return event
            }"#,
            ),
        )
        .unwrap();

    let res = sandbox.get_loaded_sandbox();
    assert!(res.is_ok());
}

// ── Module unit tests ────────────────────────────────────────────

#[test]
fn test_add_module() {
    let mut sandbox = JSSandbox::new();

    sandbox
        .add_module("utils", Script::from_content("export const x = 1;"))
        .unwrap();
    sandbox
        .add_module("helpers", Script::from_content("export const y = 2;"))
        .unwrap();

    assert_eq!(sandbox.get_number_of_modules(), 2);
}

#[test]
fn test_add_module_with_custom_namespace() {
    let mut sandbox = JSSandbox::new();

    sandbox
        .add_module_ns(
            "math",
            Script::from_content("export const PI = 3.14;"),
            "mylib",
        )
        .unwrap();

    assert_eq!(sandbox.get_number_of_modules(), 1);
}

#[test]
fn test_add_module_rejects_empty_name() {
    let mut sandbox = JSSandbox::new();

    let res = sandbox.add_module("", Script::from_content("export const x = 1;"));
    assert!(res.is_err());
    assert!(res.unwrap_err().to_string().contains("must not be empty"));
}

#[test]
fn test_add_module_rejects_empty_namespace() {
    let mut sandbox = JSSandbox::new();

    let res = sandbox.add_module_ns("utils", Script::from_content("export const x = 1;"), "");
    assert!(res.is_err());
    assert!(res.unwrap_err().to_string().contains("must not be empty"));
}

#[test]
fn test_add_module_rejects_colon_in_name() {
    let mut sandbox = JSSandbox::new();

    let res = sandbox.add_module("bad:name", Script::from_content("export const x = 1;"));
    assert!(res.is_err());
    assert!(res.unwrap_err().to_string().contains("must not contain ':'"));
}

#[test]
fn test_add_module_rejects_colon_in_namespace() {
    let mut sandbox = JSSandbox::new();

    let res = sandbox.add_module_ns(
        "utils",
        Script::from_content("export const x = 1;"),
        "bad:ns",
    );
    assert!(res.is_err());
    assert!(res.unwrap_err().to_string().contains("must not contain ':'"));
}

#[test]
fn test_add_module_rejects_reserved_namespace() {
    let mut sandbox = JSSandbox::new();

    let res =
        sandbox.add_module_ns("utils", Script::from_content("export const x = 1;"), "host");
    assert!(res.is_err());
    assert!(res.unwrap_err().to_string().contains("reserved"));
}

#[test]
fn test_add_module_rejects_duplicate() {
    let mut sandbox = JSSandbox::new();

    sandbox
        .add_module("utils", Script::from_content("export const x = 1;"))
        .unwrap();
    let res = sandbox.add_module("utils", Script::from_content("export const y = 2;"));
    assert!(res.is_err());
    assert!(res.unwrap_err().to_string().contains("already exists"));
}

#[test]
fn test_remove_module() {
    let mut sandbox = JSSandbox::new();

    sandbox
        .add_module("utils", Script::from_content("export const x = 1;"))
        .unwrap();
    sandbox.remove_module("utils").unwrap();

    assert_eq!(sandbox.get_number_of_modules(), 0);
}

#[test]
fn test_remove_module_with_custom_namespace() {
    let mut sandbox = JSSandbox::new();

    sandbox
        .add_module_ns(
            "math",
            Script::from_content("export const PI = 3.14;"),
            "mylib",
        )
        .unwrap();
    sandbox.remove_module_ns("math", "mylib").unwrap();

    assert_eq!(sandbox.get_number_of_modules(), 0);
}

#[test]
fn test_clear_modules() {
    let mut sandbox = JSSandbox::new();

    sandbox
        .add_module("a", Script::from_content("export const x = 1;"))
        .unwrap();
    sandbox
        .add_module("b", Script::from_content("export const y = 2;"))
        .unwrap();

    sandbox.clear_modules();

    assert_eq!(sandbox.get_number_of_modules(), 0);
}

#[test]
fn add_handler_rejects_empty_name() {
    let mut sandbox = JSSandbox::new();

    let script = Script::from_content("function handler(e) { return e; }");
    let result = sandbox.add_handler("", script);
    assert!(result.is_err(), "Empty handler name should be rejected");
    let err = result.unwrap_err().to_string();
    assert!(
        err.contains("must not be empty"),
        "Error should mention empty name, got: {err}"
    );
}

#[test]
fn remove_handler_rejects_empty_name() {
    let mut sandbox = JSSandbox::new();

    let result = sandbox.remove_handler("");
    assert!(result.is_err(), "Empty handler name should be rejected");
    let err = result.unwrap_err().to_string();
    assert!(
        err.contains("must not be empty"),
        "Error should mention empty name, got: {err}"
    );
}

#[test]
fn add_module_rejects_empty_name() {
    let mut sandbox = JSSandbox::new();

    let result = sandbox.add_module("", Script::from_content("export const x = 1;"));
    assert!(result.is_err(), "Empty module name should be rejected");
    let err = result.unwrap_err().to_string();
    assert!(
        err.contains("must not be empty"),
        "Error should mention empty name, got: {err}"
    );
}

#[test]
fn add_module_rejects_reserved_namespace() {
    let mut sandbox = JSSandbox::new();

    let result =
        sandbox.add_module_ns("utils", Script::from_content("export const x = 1;"), "host");
    assert!(result.is_err(), "Reserved namespace should be rejected");
    let err = result.unwrap_err().to_string();
    assert!(
        err.contains("reserved"),
        "Error should mention reserved namespace, got: {err}"
    );
}

#[test]
fn add_module_rejects_duplicate() {
    let mut sandbox = JSSandbox::new();

    sandbox
        .add_module("utils", Script::from_content("export const x = 1;"))
        .unwrap();
    let result = sandbox.add_module("utils", Script::from_content("export const y = 2;"));
    assert!(result.is_err(), "Duplicate module should be rejected");
    let err = result.unwrap_err().to_string();
    assert!(
        err.contains("already exists"),
        "Error should mention duplicate, got: {err}"
    );
}

#[test]
fn remove_module_rejects_empty_name() {
    let mut sandbox = JSSandbox::new();

    let result = sandbox.remove_module("");
    assert!(result.is_err(), "Empty module name should be rejected");
    let err = result.unwrap_err().to_string();
    assert!(
        err.contains("must not be empty"),
        "Error should mention empty name, got: {err}"
    );
}

#[test]
fn remove_module_rejects_nonexistent_module() {
    let mut sandbox = JSSandbox::new();

    let result = sandbox.remove_module("nonexistent");
    assert!(result.is_err(), "Non-existent module removal should fail");
    let err = result.unwrap_err().to_string();
    assert!(
        err.contains("does not exist"),
        "Error should mention non-existence, got: {err}"
    );
}

#[test]
fn remove_module_ns_rejects_empty_namespace() {
    let mut sandbox = JSSandbox::new();

    let result = sandbox.remove_module_ns("utils", "");
    assert!(result.is_err(), "Empty namespace should be rejected");
    let err = result.unwrap_err().to_string();
    assert!(
        err.contains("must not be empty"),
        "Error should mention empty namespace, got: {err}"
    );
}

#[test]
fn refusals_say_what_is_wrong() {
    let mut sandbox = JSSandbox::new();
    let script = || Script::from_content("export const x = 1;");
    let add = |sandbox: &mut JSSandbox, name: &str, ns: &str| {
        sandbox.add_module_ns(name, script(), ns).unwrap_err().to_string()
    };
    assert_eq!(add(&mut sandbox, "", ""), "Module name must not be empty");
    assert_eq!(add(&mut sandbox, "a:b", ""), "Module namespace must not be empty");
    assert_eq!(add(&mut sandbox, "a:b", "c:d"), "Module name must not contain ':'");
    assert_eq!(add(&mut sandbox, "a", "c:d"), "Module namespace must not contain ':'");
    assert_eq!(add(&mut sandbox, "a", "host"), "Module namespace 'host' is reserved");
    sandbox.add_module("a", script()).unwrap();
    assert_eq!(add(&mut sandbox, "a", "user"), "Module already exists: user:a");
    assert_eq!(
        sandbox.remove_module_ns("a", "host").unwrap_err().to_string(),
        "Module does not exist: host:a"
    );
    sandbox.add_handler("h", script()).unwrap();
    assert_eq!(
        sandbox.add_handler("h", script()).unwrap_err().to_string(),
        "Handler already exists for function name: h"
    );
    assert_eq!(
        sandbox.remove_handler("g").unwrap_err().to_string(),
        "Handler does not exist for function name: g"
    );
}

#[test]
fn adding_and_removing_leaves_the_rest() {
    let mut sandbox = JSSandbox::new();
    sandbox.add_handler("a", Script::from_content("1")).unwrap();
    sandbox.add_handler("b", Script::from_content("2")).unwrap();
    sandbox.remove_handler("a").unwrap();
    sandbox.add_module("m", Script::from_content("3")).unwrap();
    let plan = sandbox.get_loaded_sandbox().unwrap();
    assert_eq!(
        plan.handlers,
        vec![("b".to_string(), "2".to_string(), String::new())]
    );
    assert_eq!(
        plan.modules,
        vec![("user:m".to_string(), "3".to_string())]
    );
}

#[test]
fn loading_lists_every_module_and_handler_once() {
    let mut sandbox = JSSandbox::new();
    for name in ["x", "y", "z"] {
        sandbox.add_handler(name, Script::from_content(name)).unwrap();
        sandbox.add_module_ns(name, Script::from_content("m"), "lib").unwrap();
    }
    sandbox
        .add_handler(
            "w",
            Script::from_content("w").with_base_path("/srv/js".to_string()),
        )
        .unwrap();
    let mut plan = sandbox.get_loaded_sandbox().unwrap();
    plan.handlers.sort();
    plan.modules.sort();
    let names: Vec<&str> = plan.handlers.iter().map(|h| h.0.as_str()).collect();
    assert_eq!(names, vec!["w", "x", "y", "z"]);
    assert_eq!(plan.handlers[0].2, "/srv/js");
    assert_eq!(plan.handlers[1].2, "");
    let names: Vec<&str> = plan.modules.iter().map(|m| m.0.as_str()).collect();
    assert_eq!(names, vec!["lib:x", "lib:y", "lib:z"]);
}

#[test]
fn a_sandbox_without_handlers_loads() {
    let plan = JSSandbox::new().get_loaded_sandbox().unwrap();
    assert!(plan.handlers.is_empty());
    assert!(plan.modules.is_empty());

    let mut sandbox = JSSandbox::new();
    sandbox.add_module("m", Script::from_content("3")).unwrap();
    let plan = sandbox.get_loaded_sandbox().unwrap();
    assert!(plan.handlers.is_empty());
    assert_eq!(plan.modules, vec![("user:m".to_string(), "3".to_string())]);
}

#[test]
fn the_same_name_in_two_namespaces_is_two_modules() {
    let mut sandbox = JSSandbox::new();
    sandbox.add_module_ns("m", Script::from_content("1"), "a").unwrap();
    sandbox.add_module_ns("m", Script::from_content("2"), "b").unwrap();
    assert_eq!(sandbox.get_number_of_modules(), 2);
    sandbox.remove_module_ns("m", "a").unwrap();
    assert_eq!(sandbox.get_number_of_modules(), 1);
}
