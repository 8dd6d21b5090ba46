//! How the names that the bindings accept fit together with those of the sandbox and the runtime.

use crate::host_api::lifecycle::{
    namespace_or_default, JSSandboxWrapper, ProtoJSSandboxWrapper,
};
use crate::host_api::validate::{is_blank, module_fault, HOST_MODULE_PREFIX};
use crate::runtime::modules::builtin_of;
use crate::sandbox::js_sandbox::{
    add_module_fault, law_host_namespace_is_reserved, lemma_host_names_are_no_user_names,
    qualified_name, JSSandbox, Script, DEFAULT_MODULE_NAMESPACE, HOST_NAMESPACE,
};
use vstd::prelude::*;

verus! {

/// A module that a binding lets through can only be refused by the sandbox because it is there
/// already: everything that the sandbox asks of names the binding has asked before.
pub proof fn law_accepted_names_suit_the_sandbox(
    modules: Map<Seq<char>, Script>,
    name: Seq<char>,
    namespace: Option<Seq<char>>,
)
    requires
        module_fault(name, namespace, true) is None,
        !modules.contains_key(qualified_name(namespace_or_default(namespace), name)),
    ensures
        add_module_fault(modules, name, namespace_or_default(namespace)) is None,
{
    lemma_blank_if_empty(name);
    match namespace {
        Some(ns) => {
            lemma_blank_if_empty(ns);
        },
        None => {
            reveal_strlit("user");
            reveal_strlit("host");
            assert(DEFAULT_MODULE_NAMESPACE@[0] == 'u' && HOST_NAMESPACE@[0] == 'h');
            assert(!DEFAULT_MODULE_NAMESPACE@.contains(':'));
        },
    }
}

proof fn lemma_blank_if_empty(s: Seq<char>)
    ensures
        s.len() == 0 ==> is_blank(s),
{
}

/// What guest code imports a module of host functions by: the host namespace, then its name.
pub proof fn law_host_modules_are_in_the_host_namespace(name: Seq<char>)
    ensures
        HOST_MODULE_PREFIX@ + name == qualified_name(HOST_NAMESPACE@, name),
{
    reveal_strlit("host:");
    reveal_strlit("host");
    reveal_strlit(":");
    assert(HOST_MODULE_PREFIX@ + name =~= qualified_name(HOST_NAMESPACE@, name));
}

/// A module of host functions is never taken for a module of the runtime, nor for a user module.
pub proof fn law_host_modules_collide_with_nothing(name: Seq<char>, sandbox: JSSandbox)
    requires
        sandbox.well_formed(),
    ensures
        builtin_of(HOST_MODULE_PREFIX@ + name) is None,
        !sandbox.modules().contains_key(HOST_MODULE_PREFIX@ + name),
{
    lemma_host_modules_are_not_built_in(name);
    law_host_modules_are_in_the_host_namespace(name);
    law_host_namespace_is_reserved(sandbox, name);
}

proof fn lemma_host_modules_are_not_built_in(name: Seq<char>)
    ensures
        builtin_of(HOST_MODULE_PREFIX@ + name) is None,
{
    let import = HOST_MODULE_PREFIX@ + name;
    reveal_strlit("host:");
    reveal_strlit("io");
    reveal_strlit("crypto");
    reveal_strlit("console");
    reveal_strlit("require");
    assert(import[0] == 'h');
    assert("io"@[0] == 'i' && "crypto"@[0] == 'c' && "console"@[0] == 'c' && "require"@[0] == 'r');
}

/// A module of host functions is never taken for a user module that is registered through a binding.
pub proof fn law_host_modules_collide_with_no_registered_module(
    name: Seq<char>,
    sandbox: JSSandboxWrapper,
)
    requires
        sandbox.well_formed(),
    ensures
        sandbox.registered() matches Some(r) ==> !r.modules.contains_key(HOST_MODULE_PREFIX@ + name),
{
    law_host_modules_are_in_the_host_namespace(name);
    lemma_host_names_are_no_user_names(name);
}

/// Of all that is registered through a binding, no module of host functions is taken for a module of
/// the runtime, nor for a user module.
pub proof fn law_registered_modules_do_not_collide(
    proto: ProtoJSSandboxWrapper,
    sandbox: JSSandboxWrapper,
    import: Seq<char>,
)
    requires
        proto.well_formed(),
        sandbox.well_formed(),
        proto.modules() is Some,
        proto.modules()->0.contains_key(import),
    ensures
        builtin_of(import) is None,
        sandbox.registered() matches Some(r) ==> !r.modules.contains_key(import),
{
    let name = import.skip(HOST_MODULE_PREFIX@.len() as int);
    assert(import =~= HOST_MODULE_PREFIX@ + name);
    lemma_host_modules_are_not_built_in(name);
    law_host_modules_collide_with_no_registered_module(name, sandbox);
}

/// Two modules of host functions with different names are imported by different names.
pub proof fn law_host_module_names_are_distinct(a: Seq<char>, b: Seq<char>)
    requires
        HOST_MODULE_PREFIX@ + a == HOST_MODULE_PREFIX@ + b,
    ensures
        a == b,
{
    let n = HOST_MODULE_PREFIX@.len() as int;
    assert((HOST_MODULE_PREFIX@ + a).skip(n) =~= a);
    assert((HOST_MODULE_PREFIX@ + b).skip(n) =~= b);
}

} // verus!
