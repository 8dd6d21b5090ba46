//! Native modules and modules of host functions in the guest.

use hyperlight_js::runtime::clock::{
    clock_request_is_valid, micros_since_epoch, timespec_of_micros, Clock, TimeSpec,
};
use hyperlight_js::runtime::host_fn::{install_outcome, HostModule, HostModuleLoader};
use hyperlight_js::runtime::modules::{
    builtin_module_names, register_native_module, Builtin, LoadError, NativeModule,
    NativeModuleLoader,
};

#[test]
fn loader_resolves_all_builtin_modules() {
    let loader = NativeModuleLoader::new();
    let builtins = builtin_module_names();
    assert!(
        !builtins.is_empty(),
        "Should have at least one built-in module"
    );

    for name in &builtins {
        let result = loader.resolve(".", name);
        assert!(result.is_ok(), "Should resolve built-in module '{name}'");
        assert_eq!(result.unwrap(), *name);
    }
}

#[test]
fn loader_rejects_unknown_modules() {
    let loader = NativeModuleLoader::new();
    let result = loader.resolve(".", "nonexistent");
    assert!(result.is_err(), "Should reject unknown modules");
}

#[test]
fn loader_loads_all_builtin_modules() {
    let loader = NativeModuleLoader::new();
    let builtins = builtin_module_names();

    for name in &builtins {
        let result = loader.load(name);
        assert!(
            result.is_ok(),
            "Should load built-in module '{name}', got: {:?}",
            result.err()
        );
    }
}

#[test]
fn registered_custom_module_resolves_and_loads() {
    let mut loader = NativeModuleLoader::new();
    register_native_module(&mut loader, "greeting", 1);

    let result = loader.resolve(".", "greeting");
    assert!(
        result.is_ok(),
        "Should resolve registered 'greeting' module"
    );

    let result = loader.load("greeting");
    assert!(
        result.is_ok(),
        "Should load registered 'greeting' module, got: {:?}",
        result.err()
    );
}

#[test]
fn builtins_still_work_after_custom_registration() {
    // Register a custom module first, then verify builtins still work
    let mut loader = NativeModuleLoader::new();
    register_native_module(&mut loader, "greeting", 1);

    let builtins = builtin_module_names();
    for name in &builtins {
        let result = loader.resolve(".", name);
        assert!(
            result.is_ok(),
            "Built-in '{name}' should still resolve after custom registration"
        );
    }
}

#[test]
fn builtin_names_are_the_four() {
    let mut names = builtin_module_names();
    names.sort();
    assert_eq!(names, vec!["console", "crypto", "io", "require"]);
}

#[test]
fn custom_modules_replace_builtins() {
    let mut loader = NativeModuleLoader::new();
    assert_eq!(
        loader.load("io").unwrap(),
        NativeModule::Builtin(Builtin::Io)
    );
    register_native_module(&mut loader, "io", 7);
    assert_eq!(loader.load("io").unwrap(), NativeModule::Custom(7));
    register_native_module(&mut loader, "io", 8);
    assert_eq!(loader.load("io").unwrap(), NativeModule::Custom(8));
    assert_eq!(
        loader.load("crypto").unwrap(),
        NativeModule::Builtin(Builtin::Crypto)
    );
    assert_eq!(
        loader.load("require").unwrap(),
        NativeModule::Builtin(Builtin::Require)
    );
}

#[test]
fn import_errors_name_the_module() {
    let loader = NativeModuleLoader::new();
    match loader.resolve("main", "x") {
        Err(LoadError::Resolving { base, name }) => {
            assert_eq!(base, "main");
            assert_eq!(name, "x");
        }
        other => panic!("unexpected {other:?}"),
    }
    match loader.load("x") {
        Err(LoadError::Loading { name }) => assert_eq!(name, "x"),
        other => panic!("unexpected {other:?}"),
    }
}

#[test]
fn host_modules_are_found_by_name() {
    let mut math = HostModule::default();
    math.add_function("add", 1).add_function("mul", 2);
    math.add_function("add", 3);
    let mut loader = HostModuleLoader::default();
    assert!(loader.resolve("main", "host:math").is_err());
    loader.insert("host:math".to_string(), math);
    assert_eq!(loader.resolve("main", "host:math").unwrap(), "host:math");
    assert!(loader.load("host:math").is_ok());
    assert!(matches!(
        loader.load("host:other"),
        Err(LoadError::Loading { .. })
    ));
    let mut exports = loader.exports("host:math");
    exports.sort();
    assert_eq!(
        exports,
        vec![("add".to_string(), 3), ("mul".to_string(), 2)]
    );
    assert!(loader.exports("host:other").is_empty());
}

#[test]
fn a_later_host_module_replaces_an_earlier_one() {
    let mut first = HostModule::default();
    first.add_function("f", 1);
    let mut second = HostModule::default();
    second.add_function("g", 2);
    let mut loader = HostModuleLoader::default();
    loader.insert("a".to_string(), first);
    loader.insert("b".to_string(), HostModule::default());
    loader.insert("a".to_string(), second);
    assert_eq!(loader.exports("a"), vec![("g".to_string(), 2)]);
    assert!(loader.exports("b").is_empty());
    assert!(loader.load("b").is_ok());
}

#[test]
fn loader_is_installed_once() {
    assert!(install_outcome(false, true).is_ok());
    assert_eq!(
        install_outcome(true, true).unwrap_err().thrown().unwrap(),
        "Host function error: HostModuleLoader is already installed"
    );
    assert_eq!(
        install_outcome(false, false).unwrap_err().thrown().unwrap(),
        "Host function error: Failed to install HostModuleLoader"
    );
}

#[test]
fn clock_splits_microseconds() {
    assert_eq!(
        timespec_of_micros(1_609_459_200_000_123),
        TimeSpec { tv_sec: 1_609_459_200, tv_nsec: 123_000 }
    );
    assert_eq!(
        timespec_of_micros(999_999),
        TimeSpec { tv_sec: 0, tv_nsec: 999_999_000 }
    );
    assert_eq!(micros_since_epoch(Some(5)), 5);
    assert_eq!(micros_since_epoch(None), 1609459200u64 * 1_000_000u64);
}

#[test]
fn clock_refuses_other_clocks() {
    assert!(clock_request_is_valid(true, Clock::Realtime));
    assert!(clock_request_is_valid(true, Clock::Monotonic));
    assert!(!clock_request_is_valid(true, Clock::Other));
    assert!(!clock_request_is_valid(false, Clock::Realtime));
}
