//! A sandbox with the JavaScript runtime loaded: the handlers and modules that are to be loaded
//! into it.

use crate::common::Message;
use crate::names::{lemma_entry_map, names_unique, NameMap};
use crate::sandbox::error::{ErrorContents, HyperlightError};
use crate::text::{contains_char, joined, same_text, with_text};
use vstd::prelude::*;
use vstd::string::*;

verus! {

/// Namespace of user modules for which none is given: guest code imports them as `"user:<name>"`.
/// It is not reserved.
pub const DEFAULT_MODULE_NAMESPACE: &'static str = "user";

/// Namespace of the modules of host functions. User modules cannot be in it.
pub const HOST_NAMESPACE: &'static str = "host";

/// JavaScript source, and the directory that its relative imports start from.
#[derive(Debug)]
pub struct Script {
    content: String,
    base_path: Option<String>,
}

impl Script {
    /// The source.
    pub closed spec fn source(self) -> Seq<char> {
        self.content@
    }

    /// The directory, or the empty text where there is none.
    pub closed spec fn directory(self) -> Seq<char> {
        match self.base_path {
            Some(path) => path@,
            None => Seq::empty(),
        }
    }

    /// A script without a directory.
    pub fn from_content<M: Message>(content: M) -> (s: Script)
        ensures
            s.source() == content.message(),
            s.directory() == Seq::<char>::empty(),
    {
        Script { content: content.into_message(), base_path: None }
    }

    /// The script with a directory.
    pub fn with_base_path(self, path: String) -> (s: Script)
        ensures
            s.source() == self.source(),
            s.directory() == path@,
    {
        Script { content: self.content, base_path: Some(path) }
    }

    /// The source and the directory.
    fn into_parts(self) -> (r: (String, String))
        ensures
            r.0@ == self.source(),
            r.1@ == self.directory(),
    {
        match self.base_path {
            Some(path) => (self.content, path),
            None => (self.content, String::new()),
        }
    }
}

/// The handlers and modules of a sandbox whose runtime is loaded, before they are loaded too.
#[derive(Debug)]
pub struct JSSandbox {
    handlers: NameMap<Script>,
    modules: NameMap<Script>,
}

/// The calls by which a guest learns its modules and handlers.
#[derive(Debug)]
pub struct LoadPlan {
    /// Arguments of each `register_module` call: qualified name and source.
    pub modules: Vec<(String, String)>,
    /// Arguments of each `register_handler` call: name, source and directory. They come after the
    /// modules, so that handlers can import them.
    pub handlers: Vec<(String, String, String)>,
}

/// The name by which guest code imports a module.
pub open spec fn qualified_name(namespace: Seq<char>, name: Seq<char>) -> Seq<char> {
    namespace + ":"@ + name
}

/// Why a module name and namespace cannot be used together, if they cannot. What is looked at
/// first is reported.
pub open spec fn module_name_fault(name: Seq<char>, namespace: Seq<char>) -> Option<Seq<char>> {
    if name.len() == 0 {
        Some("Module name must not be empty"@)
    } else if namespace.len() == 0 {
        Some("Module namespace must not be empty"@)
    } else if name.contains(':') {
        Some("Module name must not contain ':'"@)
    } else if namespace.contains(':') {
        Some("Module namespace must not contain ':'"@)
    } else {
        None
    }
}

/// Why a handler cannot be added, if it cannot.
pub open spec fn add_handler_fault(handlers: Map<Seq<char>, Script>, name: Seq<char>) -> Option<
    Seq<char>,
> {
    if name.len() == 0 {
        Some("Handler name must not be empty"@)
    } else if handlers.contains_key(name) {
        Some("Handler already exists for function name: "@ + name)
    } else {
        None
    }
}

/// Why a handler cannot be removed, if it cannot.
pub open spec fn remove_handler_fault(handlers: Map<Seq<char>, Script>, name: Seq<char>) -> Option<
    Seq<char>,
> {
    if name.len() == 0 {
        Some("Handler name must not be empty"@)
    } else if !handlers.contains_key(name) {
        Some("Handler does not exist for function name: "@ + name)
    } else {
        None
    }
}

/// Why a module cannot be added, if it cannot.
pub open spec fn add_module_fault(
    modules: Map<Seq<char>, Script>,
    name: Seq<char>,
    namespace: Seq<char>,
) -> Option<Seq<char>> {
    if module_name_fault(name, namespace) is Some {
        module_name_fault(name, namespace)
    } else if namespace == HOST_NAMESPACE@ {
        Some("Module namespace '"@ + namespace + "' is reserved"@)
    } else if modules.contains_key(qualified_name(namespace, name)) {
        Some("Module already exists: "@ + qualified_name(namespace, name))
    } else {
        None
    }
}

/// Why a module cannot be removed, if it cannot.
pub open spec fn remove_module_fault(
    modules: Map<Seq<char>, Script>,
    name: Seq<char>,
    namespace: Seq<char>,
) -> Option<Seq<char>> {
    if module_name_fault(name, namespace) is Some {
        module_name_fault(name, namespace)
    } else if !modules.contains_key(qualified_name(namespace, name)) {
        Some("Module does not exist: "@ + qualified_name(namespace, name))
    } else {
        None
    }
}

/// The result is `Ok` exactly where there is no fault, and the error says what the fault is.
pub open spec fn reports(r: Result<(), HyperlightError>, fault: Option<Seq<char>>) -> bool {
    match r {
        Ok(_) => fault is None,
        Err(e) => fault matches Some(text) && e@ == ErrorContents::Error(text),
    }
}

/// Why a module name and namespace cannot be used together, if they cannot.
fn check_module_name(name: &str, namespace: &str) -> (r: Result<(), HyperlightError>)
    ensures
        reports(r, module_name_fault(name@, namespace@)),
{
    if name.is_empty() {
        return Err(HyperlightError::Error("Module name must not be empty".to_owned()));
    }
    if namespace.is_empty() {
        return Err(HyperlightError::Error("Module namespace must not be empty".to_owned()));
    }
    if contains_char(name, ':') {
        return Err(HyperlightError::Error("Module name must not contain ':'".to_owned()));
    }
    if contains_char(namespace, ':') {
        return Err(HyperlightError::Error("Module namespace must not contain ':'".to_owned()));
    }
    Ok(())
}

/// A name that a user module can have: a namespace that is not reserved and a module name.
pub open spec fn is_user_module_name(qualified: Seq<char>) -> bool {
    exists|namespace: Seq<char>, name: Seq<char>|
        qualified == #[trigger] qualified_name(namespace, name) && module_name_fault(
            name,
            namespace,
        ) is None && namespace != HOST_NAMESPACE@
}

/// Every handler has a name, and every module a name that a user module can have.
pub open spec fn suitable_names(
    handlers: Map<Seq<char>, Script>,
    modules: Map<Seq<char>, Script>,
) -> bool {
    &&& !handlers.contains_key(Seq::empty())
    &&& forall|k: Seq<char>| #[trigger] modules.contains_key(k) ==> is_user_module_name(k)
}

impl JSSandbox {
    /// Every handler has a name, and every module a name that a user module can have.
    pub open spec fn well_formed(self) -> bool {
        suitable_names(self.handlers(), self.modules())
    }

    /// The handlers, by name.
    pub closed spec fn handlers(self) -> Map<Seq<char>, Script> {
        self.handlers@
    }

    /// The modules, by qualified name.
    pub closed spec fn modules(self) -> Map<Seq<char>, Script> {
        self.modules@
    }

    /// No handlers and no modules.
    pub fn new() -> (s: JSSandbox)
        ensures
            s.handlers() == Map::<Seq<char>, Script>::empty(),
            s.modules() == Map::<Seq<char>, Script>::empty(),
            s.well_formed(),
    {
        JSSandbox { handlers: NameMap::new(), modules: NameMap::new() }
    }

    /// Adds a handler, which the host can call once the sandbox is loaded.
    pub fn add_handler<F: Message>(&mut self, function_name: F, script: Script) -> (r: Result<
        (),
        HyperlightError,
    >)
        ensures
            old(self).well_formed() ==> final(self).well_formed(),
            reports(r, add_handler_fault(old(self).handlers(), function_name.message())),
            final(self).modules() == old(self).modules(),
            final(self).handlers() == (if r is Ok {
                old(self).handlers().insert(function_name.message(), script)
            } else {
                old(self).handlers()
            }),
    {
        let function_name = function_name.into_message();
        if function_name.as_str().is_empty() {
            return Err(HyperlightError::Error("Handler name must not be empty".to_owned()));
        }
        if self.handlers.contains_key(function_name.as_str()) {
            return Err(
                HyperlightError::Error(
                    joined("Handler already exists for function name: ", function_name.as_str()),
                ),
            );
        }
        self.handlers.insert(function_name, script);
        assert(self.modules() == old(self).modules());
        Ok(())
    }

    /// Removes a handler.
    pub fn remove_handler(&mut self, function_name: &str) -> (r: Result<(), HyperlightError>)
        ensures
            old(self).well_formed() ==> final(self).well_formed(),
            reports(r, remove_handler_fault(old(self).handlers(), function_name@)),
            final(self).modules() == old(self).modules(),
            final(self).handlers() == (if r is Ok {
                old(self).handlers().remove(function_name@)
            } else {
                old(self).handlers()
            }),
    {
        if function_name.is_empty() {
            return Err(HyperlightError::Error("Handler name must not be empty".to_owned()));
        }
        let removed = self.handlers.remove(function_name);
        assert(self.modules() == old(self).modules());
        match removed {
            Some(_) => Ok(()),
            None => {
                assert(old(self).handlers().remove(function_name@) =~= old(self).handlers());
                Err(
                    HyperlightError::Error(
                        joined("Handler does not exist for function name: ", function_name),
                    ),
                )
            },
        }
    }

    /// Removes all handlers.
    pub fn clear_handlers(&mut self)
        ensures
            old(self).well_formed() ==> final(self).well_formed(),
            final(self).handlers() == Map::<Seq<char>, Script>::empty(),
            final(self).modules() == old(self).modules(),
    {
        self.handlers.clear();
        assert(self.modules() == old(self).modules());
    }

    /// Adds a module in the default namespace: guest code imports it as `"user:<module_name>"`.
    pub fn add_module<N: Message>(&mut self, module_name: N, script: Script) -> (r: Result<
        (),
        HyperlightError,
    >)
        ensures
            old(self).well_formed() ==> final(self).well_formed(),
            reports(
                r,
                add_module_fault(
                    old(self).modules(),
                    module_name.message(),
                    DEFAULT_MODULE_NAMESPACE@,
                ),
            ),
            final(self).handlers() == old(self).handlers(),
            final(self).modules() == (if r is Ok {
                old(self).modules().insert(
                    qualified_name(DEFAULT_MODULE_NAMESPACE@, module_name.message()),
                    script,
                )
            } else {
                old(self).modules()
            }),
    {
        self.add_module_ns(module_name, script, DEFAULT_MODULE_NAMESPACE)
    }

    /// Adds a module in a namespace: guest code imports it as `"<namespace>:<module_name>"`.
    ///
    /// Neither name may be empty or contain `':'`, and the namespace must not be reserved.
    pub fn add_module_ns<N: Message, NS: Message>(
        &mut self,
        module_name: N,
        script: Script,
        namespace: NS,
    ) -> (r: Result<(), HyperlightError>)
        ensures
            old(self).well_formed() ==> final(self).well_formed(),
            reports(
                r,
                add_module_fault(
                    old(self).modules(),
                    module_name.message(),
                    namespace.message(),
                ),
            ),
            final(self).handlers() == old(self).handlers(),
            final(self).modules() == (if r is Ok {
                old(self).modules().insert(
                    qualified_name(namespace.message(), module_name.message()),
                    script,
                )
            } else {
                old(self).modules()
            }),
    {
        let module_name = module_name.into_message();
        let namespace = namespace.into_message();
        match check_module_name(module_name.as_str(), namespace.as_str()) {
            Ok(_) => {},
            Err(e) => {
                return Err(e);
            },
        }
        if same_text(namespace.as_str(), HOST_NAMESPACE) {
            return Err(
                HyperlightError::Error(
                    with_text("Module namespace '", namespace.as_str(), "' is reserved"),
                ),
            );
        }
        let qualified = with_text(namespace.as_str(), ":", module_name.as_str());
        if self.modules.contains_key(qualified.as_str()) {
            return Err(
                HyperlightError::Error(joined("Module already exists: ", qualified.as_str())),
            );
        }
        self.modules.insert(qualified, script);
        Ok(())
    }

    /// Removes a module of the default namespace.
    pub fn remove_module(&mut self, module_name: &str) -> (r: Result<(), HyperlightError>)
        ensures
            old(self).well_formed() ==> final(self).well_formed(),
            reports(
                r,
                remove_module_fault(
                    old(self).modules(),
                    module_name@,
                    DEFAULT_MODULE_NAMESPACE@,
                ),
            ),
            final(self).handlers() == old(self).handlers(),
            final(self).modules() == (if r is Ok {
                old(self).modules().remove(qualified_name(DEFAULT_MODULE_NAMESPACE@, module_name@))
            } else {
                old(self).modules()
            }),
    {
        self.remove_module_ns(module_name, DEFAULT_MODULE_NAMESPACE)
    }

    /// Removes a module of a namespace.
    pub fn remove_module_ns(&mut self, module_name: &str, namespace: &str) -> (r: Result<
        (),
        HyperlightError,
    >)
        ensures
            old(self).well_formed() ==> final(self).well_formed(),
            reports(r, remove_module_fault(old(self).modules(), module_name@, namespace@)),
            final(self).handlers() == old(self).handlers(),
            final(self).modules() == (if r is Ok {
                old(self).modules().remove(qualified_name(namespace@, module_name@))
            } else {
                old(self).modules()
            }),
    {
        match check_module_name(module_name, namespace) {
            Ok(_) => {},
            Err(e) => {
                return Err(e);
            },
        }
        let qualified = with_text(namespace, ":", module_name);
        match self.modules.remove(qualified.as_str()) {
            Some(_) => Ok(()),
            None => {
                assert(old(self).modules().remove(qualified@) =~= old(self).modules());
                Err(HyperlightError::Error(joined("Module does not exist: ", qualified.as_str())))
            },
        }
    }

    /// Removes all modules.
    pub fn clear_modules(&mut self)
        ensures
            old(self).well_formed() ==> final(self).well_formed(),
            final(self).modules() == Map::<Seq<char>, Script>::empty(),
            final(self).handlers() == old(self).handlers(),
    {
        self.modules.clear();
    }

    /// How many handlers there are.
    pub fn get_number_of_handlers(&self) -> (n: usize)
        ensures
            self.handlers().dom().finite(),
            n == self.handlers().len(),
    {
        self.handlers.len()
    }

    /// How many modules there are.
    pub fn get_number_of_modules(&self) -> (n: usize)
        ensures
            self.modules().dom().finite(),
            n == self.modules().len(),
    {
        self.modules.len()
    }
}

/// The list names each module once, with its source.
pub open spec fn lists_modules(
    list: Seq<(String, String)>,
    modules: Map<Seq<char>, Script>,
) -> bool {
    &&& list.len() == modules.len()
    &&& forall|i: int|
        0 <= i < list.len() ==> modules.contains_key((#[trigger] list[i]).0@) && list[i].1@
            == modules[list[i].0@].source()
    &&& forall|i: int, j: int|
        0 <= i < j < list.len() ==> (#[trigger] list[i]).0@ != (#[trigger] list[j]).0@
}

/// The list names each handler once, with its source and directory.
pub open spec fn lists_handlers(
    list: Seq<(String, String, String)>,
    handlers: Map<Seq<char>, Script>,
) -> bool {
    &&& list.len() == handlers.len()
    &&& forall|i: int|
        0 <= i < list.len() ==> handlers.contains_key((#[trigger] list[i]).0@) && list[i].1@
            == handlers[list[i].0@].source() && list[i].2@ == handlers[list[i].0@].directory()
    &&& forall|i: int, j: int|
        0 <= i < j < list.len() ==> (#[trigger] list[i]).0@ != (#[trigger] list[j]).0@
}

impl JSSandbox {
    /// What has to be registered in the guest to load the sandbox, which is used up. A sandbox
    /// without handlers can be loaded too: evaluating code needs none.
    pub fn get_loaded_sandbox(self) -> (r: Result<LoadPlan, HyperlightError>)
        ensures
            r matches Ok(plan) && lists_modules(plan.modules@, self.modules()) && lists_handlers(
                plan.handlers@,
                self.handlers(),
            ),
    {
        let ghost module_map = self.modules();
        let ghost handler_map = self.handlers();
        let JSSandbox { handlers, modules } = self;
        let entries = modules.into_entries();
        let ghost all = entries@;
        proof {
            lemma_entry_map(all);
        }
        let mut module_list: Vec<(String, String)> = Vec::new();
        for entry in it: entries
            invariant
                it.seq() == all,
                names_unique(all),
                module_list@.len() == it.index(),
                forall|i: int|
                    0 <= i < module_list@.len() ==> (#[trigger] module_list@[i]).0@ == all[i].0@
                        && module_list@[i].1@ == all[i].1.source(),
        {
            let (name, script) = entry;
            let (content, _) = script.into_parts();
            module_list.push((name, content));
        }
        proof {
            assert forall|i: int| 0 <= i < module_list@.len() implies module_map.contains_key(
                (#[trigger] module_list@[i]).0@,
            ) && module_list@[i].1@ == module_map[module_list@[i].0@].source() by {
                assert(all[i].0@ == module_list@[i].0@);
            }
            assert forall|i: int, j: int| 0 <= i < j < module_list@.len() implies (
            #[trigger] module_list@[i]).0@ != (#[trigger] module_list@[j]).0@ by {
                assert(all[i].0@ != all[j].0@);
            }
        }
        let entries = handlers.into_entries();
        let ghost all = entries@;
        proof {
            lemma_entry_map(all);
        }
        let mut handler_list: Vec<(String, String, String)> = Vec::new();
        for entry in it: entries
            invariant
                it.seq() == all,
                names_unique(all),
                handler_list@.len() == it.index(),
                forall|i: int|
                    0 <= i < handler_list@.len() ==> (#[trigger] handler_list@[i]).0@ == all[i].0@
                        && handler_list@[i].1@ == all[i].1.source() && handler_list@[i].2@
                        == all[i].1.directory(),
        {
            let (name, script) = entry;
            let (content, path) = script.into_parts();
            handler_list.push((name, content, path));
        }
        proof {
            assert forall|i: int| 0 <= i < handler_list@.len() implies handler_map.contains_key(
                (#[trigger] handler_list@[i]).0@,
            ) && handler_list@[i].1@ == handler_map[handler_list@[i].0@].source()
                && handler_list@[i].2@ == handler_map[handler_list@[i].0@].directory() by {
                assert(all[i].0@ == handler_list@[i].0@);
            }
            assert forall|i: int, j: int| 0 <= i < j < handler_list@.len() implies (
            #[trigger] handler_list@[i]).0@ != (#[trigger] handler_list@[j]).0@ by {
                assert(all[i].0@ != all[j].0@);
            }
        }
        Ok(LoadPlan { modules: module_list, handlers: handler_list })
    }
}

/// Two modules with the same qualified name have the same namespace and the same name.
pub proof fn law_qualified_names_are_distinct(
    namespace_a: Seq<char>,
    name_a: Seq<char>,
    namespace_b: Seq<char>,
    name_b: Seq<char>,
)
    requires
        module_name_fault(name_a, namespace_a) is None,
        module_name_fault(name_b, namespace_b) is None,
        qualified_name(namespace_a, name_a) == qualified_name(namespace_b, name_b),
    ensures
        namespace_a == namespace_b,
        name_a == name_b,
{
    reveal_strlit(":");
    let a = qualified_name(namespace_a, name_a);
    let b = qualified_name(namespace_b, name_b);
    let m = namespace_a.len() as int;
    let n = namespace_b.len() as int;
    assert(a[m] == ':' && b[n] == ':');
    if m < n {
        assert(b[m] == namespace_b[m]);
        assert(namespace_b.contains(namespace_b[m]));
    } else if n < m {
        assert(a[n] == namespace_a[n]);
        assert(namespace_a.contains(namespace_a[n]));
    }
    assert(namespace_a =~= a.take(m));
    assert(namespace_b =~= b.take(n));
    assert(name_a =~= a.skip(m + 1));
    assert(name_b =~= b.skip(n + 1));
}

/// No module that guest code can import from the host namespace is a user module: where modules
/// are well formed, none of them is named `"host:<name>"`.
pub proof fn law_host_namespace_is_reserved(sandbox: JSSandbox, name: Seq<char>)
    requires
        sandbox.well_formed(),
    ensures
        !sandbox.modules().contains_key(qualified_name(HOST_NAMESPACE@, name)),
{
    lemma_host_names_are_no_user_names(name);
}

/// A name in the host namespace is none that a user module can have.
pub proof fn lemma_host_names_are_no_user_names(name: Seq<char>)
    ensures
        !is_user_module_name(qualified_name(HOST_NAMESPACE@, name)),
{
    let qualified = qualified_name(HOST_NAMESPACE@, name);
    if is_user_module_name(qualified) {
        let (namespace, own) = choose|namespace: Seq<char>, own: Seq<char>|
            qualified == #[trigger] qualified_name(namespace, own) && module_name_fault(
                own,
                namespace,
            ) is None && namespace != HOST_NAMESPACE@;
        reveal_strlit(":");
        reveal_strlit("host");
        let m = namespace.len() as int;
        assert(qualified[m] == ':' && qualified[4] == ':');
        if m < 4 {
            assert(qualified[m] == HOST_NAMESPACE@[m]);
        } else if m > 4 {
            assert(qualified[4] == namespace[4]);
            assert(namespace.contains(namespace[4]));
        }
        assert(namespace =~= qualified.take(4));
        assert(HOST_NAMESPACE@ =~= qualified.take(4));
    }
}

/// A handler that can be added can be removed again, which leaves the handlers as they were, and
/// cannot be added a second time.
pub proof fn law_add_then_remove_handler(
    handlers: Map<Seq<char>, Script>,
    name: Seq<char>,
    script: Script,
)
    requires
        add_handler_fault(handlers, name) is None,
    ensures
        remove_handler_fault(handlers.insert(name, script), name) is None,
        handlers.insert(name, script).remove(name) == handlers,
        add_handler_fault(handlers.insert(name, script), name) is Some,
{
    assert(handlers.insert(name, script).remove(name) =~= handlers);
}

/// A module that can be added can be removed again, which leaves the modules as they were, and
/// cannot be added a second time.
pub proof fn law_add_then_remove_module(
    modules: Map<Seq<char>, Script>,
    name: Seq<char>,
    namespace: Seq<char>,
    script: Script,
)
    requires
        add_module_fault(modules, name, namespace) is None,
    ensures
        ({
            let qualified = qualified_name(namespace, name);
            let after = modules.insert(qualified, script);
            &&& remove_module_fault(after, name, namespace) is None
            &&& after.remove(qualified) == modules
            &&& add_module_fault(after, name, namespace) is Some
        }),
{
    let qualified = qualified_name(namespace, name);
    assert(modules.insert(qualified, script).remove(qualified) =~= modules);
}

/// A handler can be added just where it has a name and there is none of that name, and can be removed
/// just where there is one: of two such requests exactly one is refused.
pub proof fn law_handler_requests(handlers: Map<Seq<char>, Script>, name: Seq<char>)
    ensures
        add_handler_fault(handlers, name) is None <==> name.len() > 0 && !handlers.contains_key(name),
        remove_handler_fault(handlers, name) is None <==> name.len() > 0 && handlers.contains_key(
            name,
        ),
{
}

/// A module can be added just where its name and namespace are not empty and have no colon in them,
/// the namespace is not that of the host, and there is no module of that name in it. It can be
/// removed just where there is one.
pub proof fn law_module_requests(
    modules: Map<Seq<char>, Script>,
    name: Seq<char>,
    namespace: Seq<char>,
)
    ensures
        ({
            let usable = name.len() > 0 && namespace.len() > 0 && !name.contains(':')
                && !namespace.contains(':');
            let present = modules.contains_key(qualified_name(namespace, name));
            &&& add_module_fault(modules, name, namespace) is None <==> usable && namespace
                != "host"@ && !present
            &&& remove_module_fault(modules, name, namespace) is None <==> usable && present
        }),
{
}

/// A qualified name is the namespace, a colon and the name.
pub proof fn law_qualified_name_parts(namespace: Seq<char>, name: Seq<char>)
    ensures
        ({
            let qualified = qualified_name(namespace, name);
            let colon = namespace.len() as int;
            &&& qualified.len() == namespace.len() + 1 + name.len()
            &&& qualified[colon] == ':'
            &&& qualified.take(colon) == namespace
            &&& qualified.skip(colon + 1) == name
        }),
{
    reveal_strlit(":");
    let qualified = qualified_name(namespace, name);
    let colon = namespace.len() as int;
    assert(qualified.take(colon) =~= namespace);
    assert(qualified.skip(colon + 1) =~= name);
}

/// A request succeeds just where nothing is wrong with it, and else the error says what is.
pub proof fn law_requests_are_answered(
    r: Result<(), HyperlightError>,
    fault: Option<Seq<char>>,
)
    requires
        reports(r, fault),
    ensures
        r is Ok <==> fault is None,
        r matches Err(e) ==> (fault matches Some(text) && e@ == ErrorContents::Error(text)),
{
}

/// Distinct names of a map, as many as it has, are all of its names.
proof fn lemma_all_names<V>(names: Seq<Seq<char>>, map: Map<Seq<char>, V>, name: Seq<char>)
    requires
        map.dom().finite(),
        names.len() == map.len(),
        names.no_duplicates(),
        forall|i: int| 0 <= i < names.len() ==> map.contains_key(#[trigger] names[i]),
        map.contains_key(name),
    ensures
        exists|i: int| 0 <= i < names.len() && #[trigger] names[i] == name,
{
    names.unique_seq_to_set();
    assert(names.to_set().subset_of(map.dom()));
    vstd::set_lib::lemma_subset_equality(names.to_set(), map.dom());
    assert(names.to_set().contains(name));
}

/// Every module that is registered is loaded, with its own source.
pub proof fn law_every_module_is_loaded(
    list: Seq<(String, String)>,
    modules: Map<Seq<char>, Script>,
    name: Seq<char>,
)
    requires
        lists_modules(list, modules),
        modules.dom().finite(),
        modules.contains_key(name),
    ensures
        exists|i: int|
            0 <= i < list.len() && (#[trigger] list[i]).0@ == name && list[i].1@
                == modules[name].source(),
{
    let names = Seq::new(list.len(), |i: int| list[i].0@);
    assert forall|i: int| 0 <= i < names.len() implies modules.contains_key(#[trigger] names[i]) by {
        assert(names[i] == list[i].0@);
    }
    assert forall|i: int, j: int| 0 <= i < names.len() && 0 <= j < names.len() && i != j implies
        names[i] != names[j] by {
        if i < j {
            assert(list[i].0@ != list[j].0@);
        } else {
            assert(list[j].0@ != list[i].0@);
        }
    }
    lemma_all_names(names, modules, name);
    let i = choose|i: int| 0 <= i < names.len() && #[trigger] names[i] == name;
    assert(list[i].0@ == name);
}

/// Every handler that is registered is loaded, with its own source and directory.
pub proof fn law_every_handler_is_loaded(
    list: Seq<(String, String, String)>,
    handlers: Map<Seq<char>, Script>,
    name: Seq<char>,
)
    requires
        lists_handlers(list, handlers),
        handlers.dom().finite(),
        handlers.contains_key(name),
    ensures
        exists|i: int|
            0 <= i < list.len() && (#[trigger] list[i]).0@ == name && list[i].1@
                == handlers[name].source() && list[i].2@ == handlers[name].directory(),
{
    let names = Seq::new(list.len(), |i: int| list[i].0@);
    assert forall|i: int| 0 <= i < names.len() implies handlers.contains_key(#[trigger] names[i]) by {
        assert(names[i] == list[i].0@);
    }
    assert forall|i: int, j: int| 0 <= i < names.len() && 0 <= j < names.len() && i != j implies
        names[i] != names[j] by {
        if i < j {
            assert(list[i].0@ != list[j].0@);
        } else {
            assert(list[j].0@ != list[i].0@);
        }
    }
    lemma_all_names(names, handlers, name);
    let i = choose|i: int| 0 <= i < names.len() && #[trigger] names[i] == name;
    assert(list[i].0@ == name);
}

/// What is reported of a handler or module that is there already, or is not there, ends with its
/// name.
pub proof fn law_reports_name_the_name(
    scripts: Map<Seq<char>, Script>,
    name: Seq<char>,
    namespace: Seq<char>,
)
    requires
        module_name_fault(name, namespace) is None,
        namespace != HOST_NAMESPACE@,
    ensures
        add_handler_fault(scripts, name) matches Some(text) ==> name.is_suffix_of(text),
        remove_handler_fault(scripts, name) matches Some(text) ==> name.is_suffix_of(text),
        add_module_fault(scripts, name, namespace) matches Some(text) ==> qualified_name(
            namespace,
            name,
        ).is_suffix_of(text),
        remove_module_fault(scripts, name, namespace) matches Some(text) ==> qualified_name(
            namespace,
            name,
        ).is_suffix_of(text),
{
}

} // verus!
