//! The stages of a sandbox as a binding shows them. Each stage is used up by the step to the next.
//!
//! `SandboxBuilder` → `ProtoJSSandbox` → `JSSandbox` → `LoadedJSSandbox`

use crate::host_api::error::{
    api_error, code_of_kind, consumed_error, hl_error, invalid_arg_error, kind_of_error,
    to_napi_error, ApiError, ErrorCode, Failure,
};
use crate::host_api::one_shot::{says_consumed, OneShot};
use crate::host_api::validate::{
    empty_fault, module_fault, optional_text, rejects, timeout_fault, validate_module,
    validate_not_empty, validate_size, validate_timeout, HOST_MODULE_PREFIX,
};
use crate::host_api::wording::{put, words, Binding, Term};
use crate::names::NameMap;
use crate::sandbox::error::{error_text, HyperlightError};
use crate::sandbox::execution_stats::ExecutionStats;
use crate::sandbox::js_sandbox::{
    add_handler_fault, add_module_fault, lists_handlers, lists_modules, qualified_name,
    remove_handler_fault, remove_module_fault, suitable_names, JSSandbox, LoadPlan, Script,
    DEFAULT_MODULE_NAMESPACE,
};
use crate::sandbox::json_text::{
    json_error_string, json_error_text, json_parsed, json_rendered, parse_json, render_json,
};
use crate::text::joined;
use vstd::prelude::*;
use vstd::string::*;

verus! {

// ── The builder ──────────────────────────────────────────────────────

/// What was set for a sandbox. What was not set keeps its default. Sizes are in bytes.
#[derive(Debug, Clone, Copy, PartialEq, Eq)]
pub struct SandboxConfig {
    /// The guest's output buffer.
    pub output_buffer_size: Option<u64>,
    /// The guest's input buffer.
    pub input_buffer_size: Option<u64>,
    /// The guest's scratch space.
    pub scratch_size: Option<u64>,
    /// The guest's heap.
    pub heap_size: Option<u64>,
    /// The callback for what the guest prints, by its handle.
    pub host_print_fn: Option<u64>,
}

/// Configures a sandbox, until it is built.
#[derive(Debug)]
pub struct SandboxBuilderWrapper {
    binding: Binding,
    inner: OneShot<SandboxConfig>,
}

/// A size was set on a builder: the size is checked before the builder is asked for.
pub open spec fn size_set(
    r: Result<(), ApiError>,
    binding: Binding,
    term: Term,
    size: u64,
    before: Option<SandboxConfig>,
) -> bool {
    match r {
        Ok(_) => size != 0 && before is Some,
        Err(e) => if size == 0 {
            e@ == api_error(
                ErrorCode::InvalidArg,
                words(binding, term) + " must be greater than 0"@,
            )
        } else {
            before is None && says_consumed(e, "SandboxBuilder"@)
        },
    }
}

impl SandboxBuilderWrapper {
    /// The language it is for.
    pub closed spec fn language(self) -> Binding {
        self.binding
    }

    /// What was set, unless the builder is used up.
    pub closed spec fn config(self) -> Option<SandboxConfig> {
        self.inner@
    }

    /// A builder with nothing set.
    pub fn new(binding: Binding) -> (b: SandboxBuilderWrapper)
        ensures
            b.language() == binding,
            b.config() == Some(
                SandboxConfig {
                    output_buffer_size: None,
                    input_buffer_size: None,
                    scratch_size: None,
                    heap_size: None,
                    host_print_fn: None,
                },
            ),
    {
        SandboxBuilderWrapper {
            binding,
            inner: OneShot::new(
                SandboxConfig {
                    output_buffer_size: None,
                    input_buffer_size: None,
                    scratch_size: None,
                    heap_size: None,
                    host_print_fn: None,
                },
            ),
        }
    }

    /// Sets the guest's output buffer size.
    pub fn set_output_buffer_size(&mut self, size: u64) -> (r: Result<(), ApiError>)
        ensures
            size_set(r, old(self).language(), Term::OutputBufferSize, size, old(self).config()),
            final(self).language() == old(self).language(),
            final(self).config() == (if r is Ok {
                Some(
                    SandboxConfig {
                        output_buffer_size: Some(size),
                        ..old(self).config()->0
                    },
                )
            } else {
                old(self).config()
            }),
    {
        match validate_size(size, put(self.binding, Term::OutputBufferSize)) {
            Ok(_) => {},
            Err(e) => {
                return Err(e);
            },
        }
        match self.inner.get_mut("SandboxBuilder") {
            Ok(config) => {
                config.output_buffer_size = Some(size);
                Ok(())
            },
            Err(e) => Err(e),
        }
    }

    /// Sets the guest's input buffer size.
    pub fn set_input_buffer_size(&mut self, size: u64) -> (r: Result<(), ApiError>)
        ensures
            size_set(r, old(self).language(), Term::InputBufferSize, size, old(self).config()),
            final(self).language() == old(self).language(),
            final(self).config() == (if r is Ok {
                Some(
                    SandboxConfig {
                        input_buffer_size: Some(size),
                        ..old(self).config()->0
                    },
                )
            } else {
                old(self).config()
            }),
    {
        match validate_size(size, put(self.binding, Term::InputBufferSize)) {
            Ok(_) => {},
            Err(e) => {
                return Err(e);
            },
        }
        match self.inner.get_mut("SandboxBuilder") {
            Ok(config) => {
                config.input_buffer_size = Some(size);
                Ok(())
            },
            Err(e) => Err(e),
        }
    }

    /// Sets the guest's scratch size.
    pub fn set_scratch_size(&mut self, size: u64) -> (r: Result<(), ApiError>)
        ensures
            size_set(r, old(self).language(), Term::ScratchSize, size, old(self).config()),
            final(self).language() == old(self).language(),
            final(self).config() == (if r is Ok {
                Some(SandboxConfig { scratch_size: Some(size), ..old(self).config()->0 })
            } else {
                old(self).config()
            }),
    {
        match validate_size(size, put(self.binding, Term::ScratchSize)) {
            Ok(_) => {},
            Err(e) => {
                return Err(e);
            },
        }
        match self.inner.get_mut("SandboxBuilder") {
            Ok(config) => {
                config.scratch_size = Some(size);
                Ok(())
            },
            Err(e) => Err(e),
        }
    }

    /// Sets the guest's heap size.
    pub fn set_heap_size(&mut self, size: u64) -> (r: Result<(), ApiError>)
        ensures
            size_set(r, old(self).language(), Term::HeapSize, size, old(self).config()),
            final(self).language() == old(self).language(),
            final(self).config() == (if r is Ok {
                Some(SandboxConfig { heap_size: Some(size), ..old(self).config()->0 })
            } else {
                old(self).config()
            }),
    {
        match validate_size(size, put(self.binding, Term::HeapSize)) {
            Ok(_) => {},
            Err(e) => {
                return Err(e);
            },
        }
        match self.inner.get_mut("SandboxBuilder") {
            Ok(config) => {
                config.heap_size = Some(size);
                Ok(())
            },
            Err(e) => Err(e),
        }
    }

    /// Sets the callback for what the guest prints.
    pub fn set_host_print_fn(&mut self, callback: u64) -> (r: Result<(), ApiError>)
        ensures
            match r {
                Ok(_) => old(self).config() is Some,
                Err(e) => old(self).config() is None && says_consumed(e, "SandboxBuilder"@),
            },
            final(self).language() == old(self).language(),
            final(self).config() == (if r is Ok {
                Some(SandboxConfig { host_print_fn: Some(callback), ..old(self).config()->0 })
            } else {
                old(self).config()
            }),
    {
        match self.inner.get_mut("SandboxBuilder") {
            Ok(config) => {
                config.host_print_fn = Some(callback);
                Ok(())
            },
            Err(e) => Err(e),
        }
    }

    /// Takes what was set, to build a sandbox with it. The builder is used up.
    pub fn build(&mut self) -> (r: Result<SandboxConfig, ApiError>)
        ensures
            match r {
                Ok(config) => old(self).config() == Some(config),
                Err(e) => old(self).config() is None && says_consumed(e, "SandboxBuilder"@),
            },
            final(self).config() is None,
            final(self).language() == old(self).language(),
    {
        self.inner.take("SandboxBuilder")
    }
}

// ── Host functions ───────────────────────────────────────────────────

/// The host functions of a sandbox: for each module its functions, by name, with their handles.
pub type HostFunctions = NameMap<NameMap<u64>>;

/// A sandbox that is built but has no runtime yet. Host functions are registered with it.
#[derive(Debug)]
pub struct ProtoJSSandboxWrapper {
    binding: Binding,
    inner: OneShot<HostFunctions>,
}

/// A module of host functions that are to be registered.
#[derive(Debug)]
pub struct HostModuleWrapper {
    module_name: String,
}

impl HostModuleWrapper {
    #[verifier::type_invariant]
    spec fn in_host_namespace(self) -> bool {
        is_host_module_name(self.module_name@)
    }

    /// The name by which guest code imports the module.
    pub closed spec fn import_name(self) -> Seq<char> {
        self.module_name@
    }

    /// The name by which guest code imports the module.
    pub fn name(&self) -> (s: &str)
        ensures
            s@ == self.import_name(),
            is_host_module_name(s@),
    {
        proof {
            use_type_invariant(self);
        }
        self.module_name.as_str()
    }
}

/// The name is one by which a module of host functions is imported: `"host:"`, then a name.
pub open spec fn is_host_module_name(import_name: Seq<char>) -> bool {
    &&& HOST_MODULE_PREFIX@.is_prefix_of(import_name)
    &&& import_name.len() > HOST_MODULE_PREFIX@.len()
}

/// The functions of a module, as handles by name.
pub open spec fn module_functions(
    modules: Map<Seq<char>, NameMap<u64>>,
    module: Seq<char>,
) -> Map<Seq<char>, u64> {
    if modules.contains_key(module) {
        modules[module]@
    } else {
        Map::empty()
    }
}

/// A function was registered in a module, in place of any of that name, and nothing else changed.
pub open spec fn function_registered(
    before: Map<Seq<char>, NameMap<u64>>,
    after: Map<Seq<char>, NameMap<u64>>,
    module: Seq<char>,
    name: Seq<char>,
    func: u64,
) -> bool {
    &&& after.contains_key(module)
    &&& after.remove(module) == before.remove(module)
    &&& after[module]@ == module_functions(before, module).insert(name, func)
}

impl ProtoJSSandboxWrapper {
    /// The language it is for.
    pub closed spec fn language(self) -> Binding {
        self.binding
    }

    /// The modules of host functions, unless the sandbox is used up.
    pub closed spec fn modules(self) -> Option<Map<Seq<char>, NameMap<u64>>> {
        match self.inner@ {
            Some(functions) => Some(functions@),
            None => None,
        }
    }

    /// Every module has a name by which modules of host functions are imported.
    pub open spec fn well_formed(self) -> bool {
        self.modules() matches Some(modules) ==> forall|name: Seq<char>| #[trigger]
            modules.contains_key(name) ==> is_host_module_name(name)
    }

    /// A sandbox without host functions.
    pub fn new(binding: Binding) -> (p: ProtoJSSandboxWrapper)
        ensures
            p.language() == binding,
            p.well_formed(),
            p.modules() == Some(Map::<Seq<char>, NameMap<u64>>::empty()),
    {
        ProtoJSSandboxWrapper { binding, inner: OneShot::new(NameMap::new()) }
    }

    /// A module to register host functions in. Guest code imports it as `"host:<name>"`.
    pub fn host_module(&self, name: &str) -> (r: Result<HostModuleWrapper, ApiError>)
        ensures
            rejects(r, empty_fault(name@, words(self.language(), Term::ModuleName))),
            r matches Ok(m) ==> m.import_name() == HOST_MODULE_PREFIX@ + name@,
    {
        assert(HOST_MODULE_PREFIX@.is_prefix_of(HOST_MODULE_PREFIX@ + name@));
        match validate_not_empty(name, put(self.binding, Term::ModuleName)) {
            Ok(_) => Ok(HostModuleWrapper { module_name: joined(HOST_MODULE_PREFIX, name) }),
            Err(e) => Err(e),
        }
    }

    /// Registers a host function in a module, in place of any of that name.
    pub fn register_in(&mut self, module: &HostModuleWrapper, name: String, func: u64) -> (r: Result<
        (),
        ApiError,
    >)
        ensures
            match r {
                Ok(_) => {
                    &&& name@.len() > 0
                    &&& old(self).modules() is Some
                    &&& final(self).modules() is Some
                    &&& function_registered(
                        old(self).modules()->0,
                        final(self).modules()->0,
                        module.import_name(),
                        name@,
                        func,
                    )
                },
                Err(e) => {
                    &&& final(self).modules() == old(self).modules()
                    &&& if name@.len() == 0 {
                        e@ == api_error(
                            ErrorCode::InvalidArg,
                            words(old(self).language(), Term::FunctionName)
                                + " must not be empty"@,
                        )
                    } else {
                        old(self).modules() is None && says_consumed(e, "ProtoJSSandbox"@)
                    }
                },
            },
            final(self).language() == old(self).language(),
            old(self).well_formed() ==> final(self).well_formed(),
    {
        match validate_not_empty(name.as_str(), put(self.binding, Term::FunctionName)) {
            Ok(_) => {},
            Err(e) => {
                return Err(e);
            },
        }
        proof {
            use_type_invariant(module);
        }
        match self.inner.get_mut("ProtoJSSandbox") {
            Ok(modules) => {
                let ghost before = modules@;
                let mut functions = match modules.remove(module.module_name.as_str()) {
                    Some(functions) => functions,
                    None => NameMap::new(),
                };
                functions.insert(name, func);
                modules.insert(module.module_name.clone(), functions);
                assert(modules@.remove(module.module_name@) =~= before.remove(module.module_name@));
                Ok(())
            },
            Err(e) => Err(e),
        }
    }

    /// Registers a host function in a named module: the same as [`Self::host_module`] and
    /// [`Self::register_in`] together.
    pub fn register(&mut self, module_name: &str, function_name: String, func: u64) -> (r: Result<
        (),
        ApiError,
    >)
        ensures
            match r {
                Ok(_) => {
                    &&& module_name@.len() > 0
                    &&& function_name@.len() > 0
                    &&& old(self).modules() is Some
                    &&& final(self).modules() is Some
                    &&& function_registered(
                        old(self).modules()->0,
                        final(self).modules()->0,
                        HOST_MODULE_PREFIX@ + module_name@,
                        function_name@,
                        func,
                    )
                },
                Err(e) => {
                    &&& final(self).modules() == old(self).modules()
                    &&& if module_name@.len() == 0 {
                        e@ == api_error(
                            ErrorCode::InvalidArg,
                            words(old(self).language(), Term::ModuleName) + " must not be empty"@,
                        )
                    } else if function_name@.len() == 0 {
                        e@ == api_error(
                            ErrorCode::InvalidArg,
                            words(old(self).language(), Term::FunctionName)
                                + " must not be empty"@,
                        )
                    } else {
                        old(self).modules() is None && says_consumed(e, "ProtoJSSandbox"@)
                    }
                },
            },
            final(self).language() == old(self).language(),
            old(self).well_formed() ==> final(self).well_formed(),
    {
        match self.host_module(module_name) {
            Ok(module) => self.register_in(&module, function_name, func),
            Err(e) => Err(e),
        }
    }

    /// Takes the host functions, to load the runtime with them. The sandbox is used up.
    pub fn load_runtime(&mut self) -> (r: Result<HostFunctions, ApiError>)
        ensures
            match r {
                Ok(functions) => old(self).modules() == Some(functions@),
                Err(e) => old(self).modules() is None && says_consumed(e, "ProtoJSSandbox"@),
            },
            final(self).modules() is None,
            final(self).language() == old(self).language(),
            old(self).well_formed() ==> final(self).well_formed(),
    {
        self.inner.take("ProtoJSSandbox")
    }
}

// ── Handlers and modules ─────────────────────────────────────────────

/// What is registered with a sandbox.
#[verifier::ext_equal]
pub struct Registered {
    /// The handlers, by name.
    pub handlers: Map<Seq<char>, Script>,
    /// The modules, by qualified name.
    pub modules: Map<Seq<char>, Script>,
}

/// A sandbox with the runtime loaded. Handlers and modules are registered with it.
#[derive(Debug)]
pub struct JSSandboxWrapper {
    binding: Binding,
    inner: OneShot<JSSandbox>,
}

/// What an operation on the sandbox reports: what is wrong with its arguments, else that the
/// sandbox is used up, else what the sandbox has against it.
pub open spec fn sandbox_reports(
    r: Result<(), ApiError>,
    argument_fault: Option<Seq<char>>,
    before: Option<Registered>,
    sandbox_fault: Option<Seq<char>>,
) -> bool {
    match r {
        Ok(_) => argument_fault is None && before is Some && sandbox_fault is None,
        Err(e) => match argument_fault {
            Some(text) => e@ == api_error(ErrorCode::InvalidArg, text),
            None => match before {
                None => says_consumed(e, "JSSandbox"@),
                Some(_) => sandbox_fault matches Some(text) && e@ == api_error(
                    ErrorCode::Internal,
                    text,
                ),
            },
        },
    }
}

/// The namespace that is meant.
pub open spec fn namespace_or_default(namespace: Option<Seq<char>>) -> Seq<char> {
    match namespace {
        Some(ns) => ns,
        None => DEFAULT_MODULE_NAMESPACE@,
    }
}

/// Reports an error of the sandbox.
fn report(r: Result<(), HyperlightError>) -> (out: Result<(), ApiError>)
    ensures
        match r {
            Ok(_) => out is Ok,
            Err(e) => out matches Err(e2) && e2@ == api_error(
                code_of_kind(kind_of_error(e@)),
                error_text(e@),
            ),
        },
{
    match r {
        Ok(_) => Ok(()),
        Err(e) => Err(to_napi_error(&Failure::from_error(&e))),
    }
}

impl JSSandboxWrapper {
    /// The language it is for.
    pub closed spec fn language(self) -> Binding {
        self.binding
    }

    /// The handlers and modules, unless the sandbox is used up.
    pub closed spec fn registered(self) -> Option<Registered> {
        match self.inner@ {
            Some(sandbox) => Some(
                Registered { handlers: sandbox.handlers(), modules: sandbox.modules() },
            ),
            None => None,
        }
    }

    /// Every handler has a name, and every module a name that a user module can have.
    pub open spec fn well_formed(self) -> bool {
        self.registered() matches Some(r) ==> suitable_names(r.handlers, r.modules)
    }

    /// A sandbox without handlers and modules.
    pub fn new(binding: Binding) -> (s: JSSandboxWrapper)
        ensures
            s.language() == binding,
            s.well_formed(),
            s.registered() == Some(
                Registered { handlers: Map::empty(), modules: Map::empty() },
            ),
    {
        JSSandboxWrapper { binding, inner: OneShot::new(JSSandbox::new()) }
    }

    /// Adds a handler.
    pub fn add_handler(&mut self, handler_name: String, script: Script) -> (r: Result<
        (),
        ApiError,
    >)
        ensures
            sandbox_reports(
                r,
                empty_fault(handler_name@, words(old(self).language(), Term::HandlerName)),
                old(self).registered(),
                add_handler_fault(old(self).registered()->0.handlers, handler_name@),
            ),
            final(self).language() == old(self).language(),
            old(self).well_formed() ==> final(self).well_formed(),
            final(self).registered() == (if r is Ok {
                Some(
                    Registered {
                        handlers: old(self).registered()->0.handlers.insert(handler_name@, script),
                        ..old(self).registered()->0
                    },
                )
            } else {
                old(self).registered()
            }),
    {
        match validate_not_empty(handler_name.as_str(), put(self.binding, Term::HandlerName)) {
            Ok(_) => {},
            Err(e) => {
                return Err(e);
            },
        }
        match self.inner.get_mut("JSSandbox") {
            Ok(sandbox) => report(sandbox.add_handler(handler_name, script)),
            Err(e) => Err(e),
        }
    }

    /// Removes a handler.
    pub fn remove_handler(&mut self, handler_name: &str) -> (r: Result<(), ApiError>)
        ensures
            sandbox_reports(
                r,
                empty_fault(handler_name@, words(old(self).language(), Term::HandlerName)),
                old(self).registered(),
                remove_handler_fault(old(self).registered()->0.handlers, handler_name@),
            ),
            final(self).language() == old(self).language(),
            old(self).well_formed() ==> final(self).well_formed(),
            final(self).registered() == (if r is Ok {
                Some(
                    Registered {
                        handlers: old(self).registered()->0.handlers.remove(handler_name@),
                        ..old(self).registered()->0
                    },
                )
            } else {
                old(self).registered()
            }),
    {
        match validate_not_empty(handler_name, put(self.binding, Term::HandlerName)) {
            Ok(_) => {},
            Err(e) => {
                return Err(e);
            },
        }
        match self.inner.get_mut("JSSandbox") {
            Ok(sandbox) => report(sandbox.remove_handler(handler_name)),
            Err(e) => Err(e),
        }
    }

    /// Removes all handlers.
    pub fn clear_handlers(&mut self) -> (r: Result<(), ApiError>)
        ensures
            sandbox_reports(r, None, old(self).registered(), None),
            final(self).language() == old(self).language(),
            old(self).well_formed() ==> final(self).well_formed(),
            final(self).registered() == (if r is Ok {
                Some(Registered { handlers: Map::empty(), ..old(self).registered()->0 })
            } else {
                old(self).registered()
            }),
    {
        match self.inner.get_mut("JSSandbox") {
            Ok(sandbox) => {
                sandbox.clear_handlers();
                Ok(())
            },
            Err(e) => Err(e),
        }
    }

    /// Adds a module, in the default namespace if none is given.
    pub fn add_module(
        &mut self,
        module_name: String,
        source: Script,
        namespace: Option<String>,
    ) -> (r: Result<(), ApiError>)
        ensures
            sandbox_reports(
                r,
                module_fault(module_name@, optional_text(namespace), true),
                old(self).registered(),
                add_module_fault(
                    old(self).registered()->0.modules,
                    module_name@,
                    namespace_or_default(optional_text(namespace)),
                ),
            ),
            final(self).language() == old(self).language(),
            old(self).well_formed() ==> final(self).well_formed(),
            final(self).registered() == (if r is Ok {
                Some(
                    Registered {
                        modules: old(self).registered()->0.modules.insert(
                            qualified_name(
                                namespace_or_default(optional_text(namespace)),
                                module_name@,
                            ),
                            source,
                        ),
                        ..old(self).registered()->0
                    },
                )
            } else {
                old(self).registered()
            }),
    {
        match validate_module(module_name.as_str(), &namespace, true) {
            Ok(_) => {},
            Err(e) => {
                return Err(e);
            },
        }
        match self.inner.get_mut("JSSandbox") {
            Ok(sandbox) => match namespace {
                Some(ns) => report(sandbox.add_module_ns(module_name, source, ns)),
                None => report(sandbox.add_module(module_name, source)),
            },
            Err(e) => Err(e),
        }
    }

    /// Removes a module, of the default namespace if none is given.
    pub fn remove_module(&mut self, module_name: &str, namespace: Option<String>) -> (r: Result<
        (),
        ApiError,
    >)
        ensures
            sandbox_reports(
                r,
                module_fault(module_name@, optional_text(namespace), false),
                old(self).registered(),
                remove_module_fault(
                    old(self).registered()->0.modules,
                    module_name@,
                    namespace_or_default(optional_text(namespace)),
                ),
            ),
            final(self).language() == old(self).language(),
            old(self).well_formed() ==> final(self).well_formed(),
            final(self).registered() == (if r is Ok {
                Some(
                    Registered {
                        modules: old(self).registered()->0.modules.remove(
                            qualified_name(
                                namespace_or_default(optional_text(namespace)),
                                module_name@,
                            ),
                        ),
                        ..old(self).registered()->0
                    },
                )
            } else {
                old(self).registered()
            }),
    {
        match validate_module(module_name, &namespace, false) {
            Ok(_) => {},
            Err(e) => {
                return Err(e);
            },
        }
        match self.inner.get_mut("JSSandbox") {
            Ok(sandbox) => match namespace {
                Some(ns) => report(sandbox.remove_module_ns(module_name, ns.as_str())),
                None => report(sandbox.remove_module(module_name)),
            },
            Err(e) => Err(e),
        }
    }

    /// Removes all modules.
    pub fn clear_modules(&mut self) -> (r: Result<(), ApiError>)
        ensures
            sandbox_reports(r, None, old(self).registered(), None),
            final(self).language() == old(self).language(),
            old(self).well_formed() ==> final(self).well_formed(),
            final(self).registered() == (if r is Ok {
                Some(Registered { modules: Map::empty(), ..old(self).registered()->0 })
            } else {
                old(self).registered()
            }),
    {
        match self.inner.get_mut("JSSandbox") {
            Ok(sandbox) => {
                sandbox.clear_modules();
                Ok(())
            },
            Err(e) => Err(e),
        }
    }

    /// What has to be registered in the guest to load the sandbox, which is used up. A sandbox
    /// without handlers can be loaded too.
    pub fn get_loaded_sandbox(&mut self) -> (r: Result<LoadPlan, ApiError>)
        ensures
            match r {
                Ok(plan) => {
                    &&& old(self).registered() is Some
                    &&& lists_handlers(plan.handlers@, old(self).registered()->0.handlers)
                    &&& lists_modules(plan.modules@, old(self).registered()->0.modules)
                },
                Err(e) => old(self).registered() is None && says_consumed(e, "JSSandbox"@),
            },
            final(self).registered() is None,
            final(self).language() == old(self).language(),
            old(self).well_formed() ==> final(self).well_formed(),
    {
        match self.inner.take("JSSandbox") {
            Ok(sandbox) => match sandbox.get_loaded_sandbox() {
                Ok(plan) => Ok(plan),
                Err(e) => Err(to_napi_error(&Failure::from_error(&e))),
            },
            Err(e) => Err(e),
        }
    }

    /// Whether the sandbox can still be asked for its state.
    pub fn check_available(&self) -> (r: Result<(), ApiError>)
        ensures
            sandbox_reports(r, None, self.registered(), None),
    {
        match self.inner.get("JSSandbox") {
            Ok(_) => Ok(()),
            Err(e) => Err(e),
        }
    }

    /// Drops the sandbox. Afterwards it is used up.
    pub fn dispose(&mut self)
        ensures
            final(self).registered() is None,
            final(self).language() == old(self).language(),
            old(self).well_formed() ==> final(self).well_formed(),
    {
        self.inner.dispose();
    }
}

// ── Calls ────────────────────────────────────────────────────────────

/// Options of a call. Without timeouts it runs without monitors; with both, whichever fires first
/// ends it.
#[derive(Debug, Clone, Copy, PartialEq, Eq)]
pub struct CallHandlerOptions {
    /// Limit on elapsed time, in milliseconds.
    pub wall_clock_timeout_ms: Option<u32>,
    /// Limit on CPU time, in milliseconds.
    pub cpu_timeout_ms: Option<u32>,
    /// Whether to collect garbage after the call (by default it is).
    pub gc: Option<bool>,
}

impl Default for CallHandlerOptions {
    fn default() -> (o: CallHandlerOptions)
        ensures
            o == (CallHandlerOptions { wall_clock_timeout_ms: None, cpu_timeout_ms: None, gc: None }),
    {
        CallHandlerOptions { wall_clock_timeout_ms: None, cpu_timeout_ms: None, gc: None }
    }
}

/// The monitors that watch a call, with their limits in milliseconds.
#[derive(Debug, Clone, Copy, PartialEq, Eq)]
pub enum Monitors {
    /// None.
    Unwatched,
    /// Elapsed time.
    WallClock(u32),
    /// CPU time.
    CpuTime(u32),
    /// Both: whichever fires first ends the call.
    Both {
        /// The limit on elapsed time.
        wall_clock_ms: u32,
        /// The limit on CPU time.
        cpu_ms: u32,
    },
}

/// The monitors that options ask for.
pub open spec fn monitors_of(options: CallHandlerOptions) -> Monitors {
    match (options.wall_clock_timeout_ms, options.cpu_timeout_ms) {
        (None, None) => Monitors::Unwatched,
        (Some(wall_clock_ms), Some(cpu_ms)) => Monitors::Both { wall_clock_ms, cpu_ms },
        (Some(wall_clock_ms), None) => Monitors::WallClock(wall_clock_ms),
        (None, Some(cpu_ms)) => Monitors::CpuTime(cpu_ms),
    }
}

/// What is wrong with the arguments of a call, if anything: the text must not be empty, and the
/// timeouts must be within their limits. What is looked at first is reported.
pub open spec fn call_fault(
    binding: Binding,
    term: Term,
    text: Seq<char>,
    options: CallHandlerOptions,
) -> Option<Seq<char>> {
    if text.len() == 0 {
        empty_fault(text, words(binding, term))
    } else {
        let unit = words(binding, Term::TimeoutUnit);
        let wall = timeout_fault(
            options.wall_clock_timeout_ms,
            words(binding, Term::WallClockTimeout),
            unit,
        );
        if wall is Some {
            wall
        } else {
            timeout_fault(options.cpu_timeout_ms, words(binding, Term::CpuTimeout), unit)
        }
    }
}

/// A call of a handler that is ready to be made.
#[derive(Debug)]
pub struct HandlerCall {
    /// The handler.
    pub handler_name: String,
    /// The event, as JSON text.
    pub event_json: String,
    /// The monitors that watch the call.
    pub monitors: Monitors,
    /// Whether to collect garbage after the call.
    pub gc: Option<bool>,
}

/// An evaluation that is ready to be made.
#[derive(Debug)]
pub struct EvalCall {
    /// The code.
    pub code: String,
    /// The monitors that watch the evaluation.
    pub monitors: Monitors,
    /// Whether to collect garbage afterwards.
    pub gc: Option<bool>,
}

/// A sandbox with its handlers loaded, as it is known outside of it: whether it is still there,
/// whether it is poisoned, and what was measured of the last call.
#[derive(Debug)]
pub struct LoadedJSSandboxWrapper {
    binding: Binding,
    live: bool,
    poisoned: bool,
    last_call_stats: Option<ExecutionStats>,
}

/// What is known of a loaded sandbox.
pub struct LoadedState {
    /// The language it is for.
    pub language: Binding,
    /// It is not used up.
    pub live: bool,
    /// It is poisoned.
    pub poisoned: bool,
    /// What was measured of the last call.
    pub last_call_stats: Option<ExecutionStats>,
}

impl View for LoadedJSSandboxWrapper {
    type V = LoadedState;

    closed spec fn view(&self) -> LoadedState {
        LoadedState {
            language: self.binding,
            live: self.live,
            poisoned: self.poisoned,
            last_call_stats: self.last_call_stats,
        }
    }
}

/// The result of a call that went as `outcome` says: the parsed text that it gave, or the error
/// that reports why it failed. `term` is what comes before the reason where the text is not JSON.
pub open spec fn call_result(
    r: Result<serde_json::Value, ApiError>,
    binding: Binding,
    term: Term,
    outcome: Result<String, Failure>,
) -> bool {
    match outcome {
        Err(f) => r matches Err(e) && e@ == api_error(code_of_kind(f.kind), f.text@),
        Ok(text) => match json_parsed(text@) {
            Ok(value) => r == Ok::<serde_json::Value, ApiError>(value),
            Err(fault) => r matches Err(e) && e@ == api_error(
                ErrorCode::Internal,
                words(binding, term) + json_error_text(fault),
            ),
        },
    }
}

impl LoadedJSSandboxWrapper {
    /// A sandbox that was just loaded.
    pub fn new(binding: Binding, poisoned: bool) -> (s: LoadedJSSandboxWrapper)
        ensures
            s@ == (LoadedState { language: binding, live: true, poisoned, last_call_stats: None }),
    {
        LoadedJSSandboxWrapper { binding, live: true, poisoned, last_call_stats: None }
    }

    /// Checks the arguments of a call and picks its monitors.
    fn check_call(&self, term: Term, text: &str, options: &CallHandlerOptions) -> (r: Result<
        Monitors,
        ApiError,
    >)
        ensures
            rejects(r, call_fault(self@.language, term, text@, *options)),
            r matches Ok(m) ==> m == monitors_of(*options),
    {
        match validate_not_empty(text, put(self.binding, term)) {
            Ok(_) => {},
            Err(e) => {
                return Err(e);
            },
        }
        let unit = put(self.binding, Term::TimeoutUnit);
        match validate_timeout(
            options.wall_clock_timeout_ms,
            put(self.binding, Term::WallClockTimeout),
            unit,
        ) {
            Ok(_) => {},
            Err(e) => {
                return Err(e);
            },
        }
        match validate_timeout(options.cpu_timeout_ms, put(self.binding, Term::CpuTimeout), unit) {
            Ok(_) => {},
            Err(e) => {
                return Err(e);
            },
        }
        Ok(
            match (options.wall_clock_timeout_ms, options.cpu_timeout_ms) {
                (None, None) => Monitors::Unwatched,
                (Some(wall_clock_ms), Some(cpu_ms)) => Monitors::Both { wall_clock_ms, cpu_ms },
                (Some(wall_clock_ms), None) => Monitors::WallClock(wall_clock_ms),
                (None, Some(cpu_ms)) => Monitors::CpuTime(cpu_ms),
            },
        )
    }

    /// Checks the arguments of a call of a handler.
    pub fn check_handler_call(&self, handler_name: &str, options: &CallHandlerOptions) -> (r: Result<
        Monitors,
        ApiError,
    >)
        ensures
            rejects(r, call_fault(self@.language, Term::HandlerName, handler_name@, *options)),
            r matches Ok(m) ==> m == monitors_of(*options),
    {
        self.check_call(Term::HandlerName, handler_name, options)
    }

    /// Checks the arguments of an evaluation.
    pub fn check_eval_call(&self, code: &str, options: &CallHandlerOptions) -> (r: Result<
        Monitors,
        ApiError,
    >)
        ensures
            rejects(r, call_fault(self@.language, Term::EvalCode, code@, *options)),
            r matches Ok(m) ==> m == monitors_of(*options),
    {
        self.check_call(Term::EvalCode, code, options)
    }

    /// Whether the sandbox is still there to be used.
    pub fn check_live(&self) -> (r: Result<(), ApiError>)
        ensures
            match r {
                Ok(_) => self@.live,
                Err(e) => !self@.live && says_consumed(e, "LoadedJSSandbox"@),
            },
    {
        if self.live {
            Ok(())
        } else {
            Err(consumed_error("LoadedJSSandbox"))
        }
    }

    /// Makes a call of a handler ready: the arguments are checked, then the event is written as
    /// JSON, then the sandbox has to be there.
    pub fn begin_call(
        &self,
        handler_name: String,
        event_data: &serde_json::Value,
        options: Option<CallHandlerOptions>,
    ) -> (r: Result<HandlerCall, ApiError>)
        ensures
            ({
                let chosen = match options {
                    Some(o) => o,
                    None => CallHandlerOptions {
                        wall_clock_timeout_ms: None,
                        cpu_timeout_ms: None,
                        gc: None,
                    },
                };
                let fault = call_fault(
                    self@.language,
                    Term::HandlerName,
                    handler_name@,
                    chosen,
                );
                match r {
                    Ok(call) => {
                        &&& fault is None
                        &&& self@.live
                        &&& call.handler_name == handler_name
                        &&& json_rendered(*event_data) == Ok::<Seq<char>, serde_json::Error>(
                            call.event_json@,
                        )
                        &&& call.monitors == monitors_of(chosen)
                        &&& call.gc == chosen.gc
                    },
                    Err(e) => match fault {
                        Some(text) => e@ == api_error(ErrorCode::InvalidArg, text),
                        None => match json_rendered(*event_data) {
                            Err(f) => e@ == api_error(
                                ErrorCode::InvalidArg,
                                words(self@.language, Term::SerializeEvent) + json_error_text(f),
                            ),
                            Ok(_) => !self@.live && says_consumed(e, "LoadedJSSandbox"@),
                        },
                    },
                }
            }),
    {
        let options = match options {
            Some(o) => o,
            None => CallHandlerOptions::default(),
        };
        let monitors = match self.check_handler_call(handler_name.as_str(), &options) {
            Ok(monitors) => monitors,
            Err(e) => {
                return Err(e);
            },
        };
        let event_json = match render_json(event_data) {
            Ok(text) => text,
            Err(e) => {
                return Err(
                    invalid_arg_error(
                        joined(
                            put(self.binding, Term::SerializeEvent),
                            json_error_string(&e).as_str(),
                        ).as_str(),
                    ),
                );
            },
        };
        match self.check_live() {
            Ok(_) => Ok(HandlerCall { handler_name, event_json, monitors, gc: options.gc }),
            Err(e) => Err(e),
        }
    }

    /// Makes an evaluation ready: the arguments are checked, then the sandbox has to be there.
    pub fn begin_eval(&self, code: String, options: CallHandlerOptions) -> (r: Result<
        EvalCall,
        ApiError,
    >)
        ensures
            ({
                let fault = call_fault(self@.language, Term::EvalCode, code@, options);
                match r {
                    Ok(call) => {
                        &&& fault is None
                        &&& self@.live
                        &&& call.code == code
                        &&& call.monitors == monitors_of(options)
                        &&& call.gc == options.gc
                    },
                    Err(e) => match fault {
                        Some(text) => e@ == api_error(ErrorCode::InvalidArg, text),
                        None => !self@.live && says_consumed(e, "LoadedJSSandbox"@),
                    },
                }
            }),
    {
        let monitors = match self.check_eval_call(code.as_str(), &options) {
            Ok(monitors) => monitors,
            Err(e) => {
                return Err(e);
            },
        };
        match self.check_live() {
            Ok(_) => Ok(EvalCall { code, monitors, gc: options.gc }),
            Err(e) => Err(e),
        }
    }

    /// Parses what a call gave, or reports why it failed.
    fn parse_outcome(&self, term: Term, outcome: Result<String, Failure>) -> (r: Result<
        serde_json::Value,
        ApiError,
    >)
        ensures
            call_result(r, self@.language, term, outcome),
    {
        match outcome {
            Err(f) => Err(to_napi_error(&f)),
            Ok(text) => match parse_json(text.as_str()) {
                Ok(value) => Ok(value),
                Err(e) => Err(
                    hl_error(
                        ErrorCode::Internal,
                        joined(put(self.binding, term), json_error_string(&e).as_str()).as_str(),
                    ),
                ),
            },
        }
    }

    /// Takes note of how a call of a handler went, also where it failed, and gives its result.
    pub fn finish_call(
        &mut self,
        outcome: Result<String, Failure>,
        poisoned: bool,
        stats: Option<ExecutionStats>,
    ) -> (r: Result<serde_json::Value, ApiError>)
        ensures
            final(self)@ == (LoadedState { poisoned, last_call_stats: stats, ..old(self)@ }),
            call_result(r, old(self)@.language, Term::ParseResult, outcome),
    {
        self.poisoned = poisoned;
        self.last_call_stats = stats;
        self.parse_outcome(Term::ParseResult, outcome)
    }

    /// Takes note of how an evaluation went, also where it failed, and gives its result.
    pub fn finish_eval(
        &mut self,
        outcome: Result<String, Failure>,
        poisoned: bool,
        stats: Option<ExecutionStats>,
    ) -> (r: Result<serde_json::Value, ApiError>)
        ensures
            final(self)@ == (LoadedState { poisoned, last_call_stats: stats, ..old(self)@ }),
            call_result(r, old(self)@.language, Term::ParseEvalResult, outcome),
    {
        self.poisoned = poisoned;
        self.last_call_stats = stats;
        self.parse_outcome(Term::ParseEvalResult, outcome)
    }

    /// Takes note of how a snapshot or a restore went, also where it failed, and gives its result.
    pub fn finish_access<T>(&mut self, outcome: Result<T, Failure>, poisoned: bool) -> (r: Result<
        T,
        ApiError,
    >)
        ensures
            final(self)@ == (LoadedState { poisoned, ..old(self)@ }),
            match outcome {
                Ok(value) => r == Ok::<T, ApiError>(value),
                Err(f) => r matches Err(e) && e@ == api_error(code_of_kind(f.kind), f.text@),
            },
    {
        self.poisoned = poisoned;
        match outcome {
            Ok(value) => Ok(value),
            Err(f) => Err(to_napi_error(&f)),
        }
    }

    /// Uses the sandbox up, to go back to the stage before it.
    pub fn unload(&mut self) -> (r: Result<(), ApiError>)
        ensures
            match r {
                Ok(_) => old(self)@.live,
                Err(e) => !old(self)@.live && says_consumed(e, "LoadedJSSandbox"@),
            },
            final(self)@ == (LoadedState { live: false, ..old(self)@ }),
    {
        let r = self.check_live();
        self.live = false;
        r
    }

    /// Drops the sandbox. Afterwards it is used up.
    pub fn dispose(&mut self)
        ensures
            final(self)@ == (LoadedState { live: false, ..old(self)@ }),
    {
        self.live = false;
    }

    /// Whether what is known of the sandbox can be read: in Python not once it is used up.
    pub fn check_readable(&self) -> (r: Result<(), ApiError>)
        ensures
            match r {
                Ok(_) => self@.live || self@.language == Binding::Node,
                Err(e) => !self@.live && self@.language == Binding::Python && says_consumed(
                    e,
                    "LoadedJSSandbox"@,
                ),
            },
    {
        match self.binding {
            Binding::Node => Ok(()),
            Binding::Python => self.check_live(),
        }
    }

    /// Whether the sandbox is poisoned, as of the last operation on it.
    pub fn poisoned(&self) -> (r: Result<bool, ApiError>)
        ensures
            match r {
                Ok(p) => (self@.live || self@.language == Binding::Node) && p == self@.poisoned,
                Err(e) => !self@.live && self@.language == Binding::Python && says_consumed(
                    e,
                    "LoadedJSSandbox"@,
                ),
            },
    {
        match self.check_readable() {
            Ok(_) => Ok(self.poisoned),
            Err(e) => Err(e),
        }
    }

    /// What was measured of the last call, if there was one.
    pub fn last_call_stats(&self) -> (r: Result<Option<ExecutionStats>, ApiError>)
        ensures
            match r {
                Ok(stats) => (self@.live || self@.language == Binding::Node) && stats
                    == self@.last_call_stats,
                Err(e) => !self@.live && self@.language == Binding::Python && says_consumed(
                    e,
                    "LoadedJSSandbox"@,
                ),
            },
    {
        match self.check_readable() {
            Ok(_) => Ok(
                match &self.last_call_stats {
                    Some(stats) => Some(stats.clone()),
                    None => None,
                },
            ),
            Err(e) => Err(e),
        }
    }
}

} // verus!
