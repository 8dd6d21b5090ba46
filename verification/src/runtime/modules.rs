//! Native modules that guest code can import.

use crate::runtime::table::HandleTable;
use crate::text::same_text;
use vstd::prelude::*;

verus! {

/// The modules that come with the runtime.
#[derive(Debug, Clone, Copy, PartialEq, Eq, Structural)]
pub enum Builtin {
    /// `io`
    Io,
    /// `crypto`
    Crypto,
    /// `console`
    Console,
    /// `require`, which the loading of modules itself rests on.
    Require,
}

/// The built-in module of a name.
pub open spec fn builtin_of(name: Seq<char>) -> Option<Builtin> {
    if name == "io"@ {
        Some(Builtin::Io)
    } else if name == "crypto"@ {
        Some(Builtin::Crypto)
    } else if name == "console"@ {
        Some(Builtin::Console)
    } else if name == "require"@ {
        Some(Builtin::Require)
    } else {
        None
    }
}

/// The names of all built-in modules.
pub fn builtin_module_names() -> (names: Vec<&'static str>)
    ensures
        names@.len() == 4,
        forall|name: Seq<char>|
            builtin_of(name) is Some <==> exists|i: int|
                0 <= i < names@.len() && #[trigger] names@[i]@ == name,
{
    let names: Vec<&'static str> = vec!["io", "crypto", "console", "require"];
    assert(names@[0]@ == "io"@ && names@[1]@ == "crypto"@ && names@[2]@ == "console"@ && names@[3]@
        == "require"@);
    names
}

/// The built-in module of a name.
fn find_builtin(name: &str) -> (r: Option<Builtin>)
    ensures
        r == builtin_of(name@),
{
    if same_text(name, "io") {
        Some(Builtin::Io)
    } else if same_text(name, "crypto") {
        Some(Builtin::Crypto)
    } else if same_text(name, "console") {
        Some(Builtin::Console)
    } else if same_text(name, "require") {
        Some(Builtin::Require)
    } else {
        None
    }
}

/// Which module a name stands for.
#[derive(Debug, Clone, Copy, PartialEq, Eq, Structural)]
pub enum NativeModule {
    /// A registered module, by its handle.
    Custom(u64),
    /// A module of the runtime.
    Builtin(Builtin),
}

/// Why a module cannot be imported.
#[derive(Debug)]
pub enum LoadError {
    /// The name does not stand for a module where it is imported.
    Resolving {
        /// The importing module.
        base: String,
        /// The name.
        name: String,
    },
    /// There is no module of that name.
    Loading {
        /// The name.
        name: String,
    },
}

/// Finds native modules: registered ones first, then those of the runtime.
pub struct NativeModuleLoader {
    custom: HandleTable,
}

impl View for NativeModuleLoader {
    type V = Map<Seq<char>, u64>;

    closed spec fn view(&self) -> Map<Seq<char>, u64> {
        self.custom@
    }
}

/// The module that a name stands for, given the registered ones: a registered module comes before
/// a module of the runtime with the same name.
pub open spec fn native_module(custom: Map<Seq<char>, u64>, name: Seq<char>) -> Option<
    NativeModule,
> {
    if custom.contains_key(name) {
        Some(NativeModule::Custom(custom[name]))
    } else {
        match builtin_of(name) {
            Some(b) => Some(NativeModule::Builtin(b)),
            None => None,
        }
    }
}

impl NativeModuleLoader {
    /// The `require` module is not replaced.
    pub open spec fn well_formed(self) -> bool {
        !self@.contains_key("require"@)
    }

    /// A loader with no registered modules.
    pub fn new() -> (l: NativeModuleLoader)
        ensures
            l@ == Map::<Seq<char>, u64>::empty(),
            l.well_formed(),
    {
        let custom = HandleTable::new();
        assert(custom@ =~= Map::<Seq<char>, u64>::empty());
        NativeModuleLoader { custom }
    }

    /// Whether a name stands for a native module where it is imported: then it stands for itself.
    pub fn resolve(&self, base: &str, name: &str) -> (r: Result<String, LoadError>)
        ensures
            match r {
                Ok(s) => native_module(self@, name@) is Some && s@ == name@,
                Err(e) => native_module(self@, name@) is None && (e matches LoadError::Resolving {
                    base: b,
                    name: n,
                } && b@ == base@ && n@ == name@),
            },
    {
        if self.custom.contains_key(name) || find_builtin(name).is_some() {
            Ok(name.to_owned())
        } else {
            Err(LoadError::Resolving { base: base.to_owned(), name: name.to_owned() })
        }
    }

    /// The native module of a name.
    pub fn load(&self, name: &str) -> (r: Result<NativeModule, LoadError>)
        ensures
            match r {
                Ok(m) => native_module(self@, name@) == Some(m),
                Err(e) => native_module(self@, name@) is None && (e matches LoadError::Loading {
                    name: n,
                } && n@ == name@),
            },
    {
        if let Some(decl) = self.custom.get(name) {
            return Ok(NativeModule::Custom(decl));
        }
        match find_builtin(name) {
            Some(b) => Ok(NativeModule::Builtin(b)),
            None => Err(LoadError::Loading { name: name.to_owned() }),
        }
    }
}

/// Registers a native module, in place of any that was registered under the name. It also comes
/// before a module of the runtime with that name, except that `require` cannot be replaced.
pub fn register_native_module(loader: &mut NativeModuleLoader, name: &'static str, decl: u64)
    requires
        name@ != "require"@,
    ensures
        final(loader)@ == old(loader)@.insert(name@, decl),
        old(loader).well_formed() ==> final(loader).well_formed(),
{
    loader.custom.insert(name.to_owned(), decl);
}

/// Whatever is registered, `require` is the runtime's own.
pub proof fn law_require_cannot_be_replaced(loader: NativeModuleLoader)
    requires
        loader.well_formed(),
    ensures
        native_module(loader@, "require"@) == Some(NativeModule::Builtin(Builtin::Require)),
{
    reveal_strlit("require");
    reveal_strlit("io");
    reveal_strlit("crypto");
    reveal_strlit("console");
    assert("require"@[0] == 'r' && "io"@[0] == 'i' && "crypto"@[0] == 'c' && "console"@[0] == 'c');
}

/// A registered module is found under its name, before a module of the runtime with that name;
/// registering it does not change what any other name stands for.
pub proof fn law_custom_modules_come_first(
    custom: Map<Seq<char>, u64>,
    name: Seq<char>,
    decl: u64,
    other: Seq<char>,
)
    ensures
        native_module(custom.insert(name, decl), name) == Some(NativeModule::Custom(decl)),
        other != name ==> native_module(custom.insert(name, decl), other) == native_module(
            custom,
            other,
        ),
{
}

/// Every module of the runtime can be imported, whatever is registered.
pub proof fn law_builtins_are_always_found(custom: Map<Seq<char>, u64>, name: Seq<char>)
    requires
        builtin_of(name) is Some,
    ensures
        native_module(custom, name) is Some,
{
}

/// Each module of the runtime has one name, and nothing else is a module of the runtime.
pub proof fn law_builtin_names(name: Seq<char>)
    ensures
        builtin_of(name) == Some(Builtin::Io) <==> name == "io"@,
        builtin_of(name) == Some(Builtin::Crypto) <==> name == "crypto"@,
        builtin_of(name) == Some(Builtin::Console) <==> name == "console"@,
        builtin_of(name) == Some(Builtin::Require) <==> name == "require"@,
{
    reveal_strlit("require");
    reveal_strlit("io");
    reveal_strlit("crypto");
    reveal_strlit("console");
    assert("io"@.len() == 2 && "crypto"@.len() == 6);
    assert("require"@[0] == 'r' && "console"@[0] == 'c');
    assert("crypto"@[1] == 'r' && "console"@[1] == 'o');
}

/// A name stands for a module just where one is registered under it or comes with the runtime under
/// it.
pub proof fn law_names_of_modules(custom: Map<Seq<char>, u64>, name: Seq<char>)
    ensures
        native_module(custom, name) is Some <==> custom.contains_key(name) || builtin_of(
            name,
        ) is Some,
        native_module(custom, name) matches Some(NativeModule::Custom(decl)) ==> custom.contains_key(
            name,
        ) && custom[name] == decl,
        native_module(custom, name) matches Some(NativeModule::Builtin(b))
            ==> !custom.contains_key(name) && builtin_of(name) == Some(b),
{
}

} // verus!
