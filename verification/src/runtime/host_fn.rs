//! Host functions as guest code sees them.

use crate::common::{
    contents, decode_binaries, decode_return, encode_binaries, encode_fault, law_return_round_trip,
    law_sidecar_round_trip, optional_contents, parse_return, parse_sidecar, return_bytes,
    return_fits, sidecar, sidecar_fault_text, sidecar_fits, FnReturn, Message, ReturnContents,
};
use crate::json::{lemma_array_tree, Json, JsonTree};
use crate::runtime::modules::LoadError;
use crate::runtime::table::{lists_entries, HandleTable};
use crate::runtime::values::{
    extract_binaries, js_items, js_trees, json_to_guest, json_to_plain_value,
    json_to_value_with_blobs, value_fault_text, GuestTree, GuestValue, JsValue, ValueFault,
};
use crate::sandbox::host_fn::Function;
use crate::sandbox::json_text::{
    json_error_string, json_error_text, json_parsed, json_rendered, parse_json, render_json,
};
use crate::text::{joined, with_text};
use vstd::prelude::*;
use vstd::string::*;

verus! {

/// Why a host function failed.
#[derive(Debug)]
pub enum HostCallError {
    /// The engine failed, and its own error is thrown.
    Engine,
    /// A message, each outer context before the inner one.
    Message(String),
}

/// What a [`HostCallError`] says.
pub enum CallFault {
    /// The engine's own error.
    Engine,
    /// A message.
    Message(Seq<char>),
}

impl View for HostCallError {
    type V = CallFault;

    open spec fn view(&self) -> CallFault {
        match self {
            HostCallError::Engine => CallFault::Engine,
            HostCallError::Message(text) => CallFault::Message(text@),
        }
    }
}

/// A fault under a context. The engine's own error stays what it is.
pub open spec fn in_context(context: Seq<char>, fault: CallFault) -> CallFault {
    match fault {
        CallFault::Engine => CallFault::Engine,
        CallFault::Message(text) => CallFault::Message(context + ": "@ + text),
    }
}

/// The fault of a value that cannot be converted.
pub open spec fn value_call_fault(f: ValueFault) -> CallFault {
    match value_fault_text(f) {
        Some(text) => CallFault::Message(text),
        None => CallFault::Engine,
    }
}

impl HostCallError {
    /// The error under a context.
    pub fn context(self, context: &str) -> (e: HostCallError)
        ensures
            e@ == in_context(context@, self@),
    {
        match self {
            HostCallError::Engine => HostCallError::Engine,
            HostCallError::Message(text) => HostCallError::Message(
                with_text(context, ": ", text.as_str()),
            ),
        }
    }

    /// The error of a value that cannot be converted.
    pub fn from_value_fault(f: ValueFault) -> (e: HostCallError)
        ensures
            e@ == value_call_fault(f),
    {
        match f.message() {
            Some(text) => HostCallError::Message(text),
            None => HostCallError::Engine,
        }
    }

    /// The message of the exception that is thrown into the guest, unless the engine's own error
    /// is.
    pub fn thrown(&self) -> (msg: Option<String>)
        ensures
            match (self@, msg) {
                (CallFault::Engine, None) => true,
                (CallFault::Message(text), Some(s)) => s@ == "Host function error: "@ + text,
                _ => false,
            },
    {
        match self {
            HostCallError::Engine => None,
            HostCallError::Message(text) => Some(joined("Host function error: ", text.as_str())),
        }
    }
}

/// What a function that takes JSON text and gives JSON text is called with, and what becomes of
/// what it gave. `stringified` is what the engine made of the arguments.
pub fn call_json<F: Function<Result<String, HostCallError>, String>>(
    func: &F,
    stringified: Option<String>,
) -> (r: Result<String, HostCallError>)
    ensures
        match stringified {
            None => r matches Err(e) && e@ == CallFault::Message(
                "Serializing host function arguments"@,
            ),
            Some(args) => exists|out: Result<String, HostCallError>|
                call_ensures(F::call, (func, args), out) && json_outcome(out, r),
        },
{
    match stringified {
        None => Err(
            HostCallError::Message("Serializing host function arguments".to_owned()),
        ),
        Some(args) => {
            let out = func.call(args);
            let ghost given = out;
            assert(call_ensures(F::call, (func, args), given));
            let r = match out {
                Ok(text) => Ok(text),
                Err(e) => Err(e.context("Calling host function")),
            };
            assert(json_outcome(given, r));
            r
        },
    }
}

/// What a call of a function that gave `out` comes to.
pub open spec fn json_outcome(
    out: Result<String, HostCallError>,
    r: Result<String, HostCallError>,
) -> bool {
    match out {
        Ok(text) => r == Ok::<String, HostCallError>(text),
        Err(e) => r matches Err(e2) && e2@ == in_context("Calling host function"@, e@),
    }
}

/// What a call with binary data hands to the host, where `value` is the list of arguments with
/// placeholders for byte arrays: the list as text, and the sidecar with the bytes.
pub open spec fn packed_call(value: serde_json::Value, blobs: Seq<Seq<u8>>) -> Result<
    (Seq<char>, Seq<u8>),
    CallFault,
> {
    match json_rendered(value) {
        Err(f) => Err(CallFault::Message(json_error_text(f))),
        Ok(text) => if sidecar_fits(blobs) {
            Ok((text, sidecar(blobs)))
        } else {
            Err(CallFault::Message(encode_fault(blobs)->0))
        },
    }
}

/// The arguments of a call come to `call`: what is handed to the host, or why nothing is.
/// `encoder` turns the library's JSON into a `serde_json` value.
pub open spec fn prepared<E: Function<serde_json::Value, Json>>(
    encoder: &E,
    args: Seq<JsValue>,
    call: Result<(Seq<char>, Seq<u8>), CallFault>,
) -> bool {
    let (json, blobs) = js_items(js_trees(args), args.len(), Seq::empty(), 0);
    match json {
        Err(f) => call == Err::<(Seq<char>, Seq<u8>), CallFault>(value_call_fault(f)),
        Ok(list) => exists|whole: Json, value: serde_json::Value|
            whole@ == JsonTree::Array(list) && call_ensures(E::call, (encoder, whole), value)
                && call == packed_call(value, blobs),
    }
}

/// What is handed to the host, or why nothing is.
pub open spec fn call_contents(r: Result<(String, Vec<u8>), HostCallError>) -> Result<
    (Seq<char>, Seq<u8>),
    CallFault,
> {
    match r {
        Ok((text, packed)) => Ok((text@, packed@)),
        Err(e) => Err(e@),
    }
}

/// Takes the byte arrays out of the arguments of a call, writes the arguments as text and packs the
/// bytes. `encoder` turns the library's JSON into a `serde_json` value.
pub fn prepare_bin_call<E: Function<serde_json::Value, Json>>(
    encoder: &E,
    args: Vec<JsValue>,
) -> (r: Result<(String, Vec<u8>), HostCallError>)
    ensures
        prepared(encoder, args@, call_contents(r)),
{
    broadcast use lemma_array_tree;

    let (json_args, binaries) = match extract_binaries(args) {
        Ok(extracted) => extracted,
        Err(f) => {
            return Err(HostCallError::from_value_fault(f));
        },
    };
    let whole = Json::Array(json_args);
    let value = encoder.call(whole);
    assert(call_ensures(E::call, (encoder, whole), value));
    let text = match render_json(&value) {
        Ok(text) => text,
        Err(e) => {
            return Err(HostCallError::Message(json_error_string(&e)));
        },
    };
    match encode_binaries(binaries.as_slice()) {
        Ok(packed) => Ok((text, packed)),
        Err(e) => Err(HostCallError::Message(e.to_string())),
    }
}

/// What the host gave back, ready to be made into a guest value.
#[derive(Debug)]
pub enum HostReply {
    /// JSON text.
    Json(String),
    /// JSON text with the blobs that its placeholders refer to.
    JsonWithBlobs(String, Vec<Vec<u8>>),
    /// Bytes, for a `Uint8Array`.
    Binary(Vec<u8>),
}

/// What a [`HostReply`] holds.
pub enum ReplyContents {
    /// JSON text.
    Json(Seq<char>),
    /// JSON text with blobs.
    JsonWithBlobs(Seq<char>, Seq<Seq<u8>>),
    /// Bytes.
    Binary(Seq<u8>),
}

impl View for HostReply {
    type V = ReplyContents;

    open spec fn view(&self) -> ReplyContents {
        match self {
            HostReply::Json(text) => ReplyContents::Json(text@),
            HostReply::JsonWithBlobs(text, blobs) => ReplyContents::JsonWithBlobs(
                text@,
                contents(blobs@),
            ),
            HostReply::Binary(bytes) => ReplyContents::Binary(bytes@),
        }
    }
}

/// Reads the bytes that the host gave back.
pub open spec fn read_reply(data: Seq<u8>) -> Result<ReplyContents, Seq<char>> {
    match parse_return(data) {
        Err(text) => Err(text),
        Ok(ReturnContents::Json(text)) => Ok(ReplyContents::Json(text)),
        Ok(ReturnContents::Binary(bytes)) => Ok(ReplyContents::Binary(bytes)),
        Ok(ReturnContents::JsonWithBinaries(text, sidecar)) => match parse_sidecar(sidecar) {
            Ok(blobs) => Ok(ReplyContents::JsonWithBlobs(text, blobs)),
            Err(f) => Err(sidecar_fault_text(f)),
        },
    }
}

/// Reads the bytes that the host gave back.
pub fn decode_reply(data: &[u8]) -> (r: Result<HostReply, HostCallError>)
    ensures
        match r {
            Ok(reply) => read_reply(data@) == Ok::<ReplyContents, Seq<char>>(reply@),
            Err(e) => read_reply(data@) matches Err(text) && e@ == CallFault::Message(text),
        },
{
    match decode_return(data) {
        Err(e) => Err(HostCallError::Message(e.to_string())),
        Ok(FnReturn::Json(text)) => Ok(HostReply::Json(text)),
        Ok(FnReturn::Binary(bytes)) => Ok(HostReply::Binary(bytes)),
        Ok(FnReturn::JsonWithBinaries(text, sidecar)) => match decode_binaries(
            sidecar.as_slice(),
        ) {
            Ok(blobs) => Ok(HostReply::JsonWithBlobs(text, blobs)),
            Err(e) => Err(HostCallError::Message(e.to_string())),
        },
    }
}

/// The guest value of a reply. `parsed` is what became of its text, where it has one: the JSON, or
/// why it is not JSON.
pub open spec fn reply_value(
    reply: ReplyContents,
    parsed: Result<JsonTree, CallFault>,
) -> Result<GuestTree, CallFault> {
    match reply {
        ReplyContents::Binary(bytes) => Ok(GuestTree::Uint8Array(bytes)),
        ReplyContents::Json(_) => match parsed {
            Err(fault) => Err(in_context("Parsing JSON return from host"@, fault)),
            Ok(t) => match json_to_guest(t, None, 0) {
                Ok(v) => Ok(v),
                Err(f) => Err(value_call_fault(f)),
            },
        },
        ReplyContents::JsonWithBlobs(_, blobs) => match parsed {
            Err(fault) => Err(in_context("Parsing JSON-with-binaries return from host"@, fault)),
            Ok(t) => match json_to_guest(t, Some(blobs), 0) {
                Ok(v) => Ok(v),
                Err(f) => Err(value_call_fault(f)),
            },
        },
    }
}

/// The result says what is expected of it.
pub open spec fn gives(
    r: Result<GuestValue, HostCallError>,
    expected: Result<GuestTree, CallFault>,
) -> bool {
    match r {
        Ok(v) => expected == Ok::<GuestTree, CallFault>(v@),
        Err(e) => expected == Err::<GuestTree, CallFault>(e@),
    }
}

/// The guest value of JSON text. `context` is put before the reason where the text is not JSON.
fn finish_json<D: Function<Json, serde_json::Value>>(
    decoder: &D,
    text: &str,
    context: &str,
    blobs: Option<&Vec<Vec<u8>>>,
) -> (r: Result<GuestValue, HostCallError>)
    ensures
        match json_parsed(text@) {
            Err(f) => r matches Err(e) && e@ == in_context(
                context@,
                CallFault::Message(json_error_text(f)),
            ),
            Ok(value) => exists|json: Json|
                call_ensures(D::call, (decoder, value), json) && gives(
                    r,
                    match json_to_guest(json@, optional_contents(blobs), 0) {
                        Ok(v) => Ok(v),
                        Err(f) => Err(value_call_fault(f)),
                    },
                ),
        },
{
    let value = match parse_json(text) {
        Ok(value) => value,
        Err(e) => {
            return Err(HostCallError::Message(json_error_string(&e)).context(context));
        },
    };
    let json = decoder.call(value);
    assert(call_ensures(D::call, (decoder, value), json));
    let converted = match blobs {
        Some(list) => json_to_value_with_blobs(json, list, 0),
        None => json_to_plain_value(json, 0),
    };
    match converted {
        Ok(v) => Ok(v),
        Err(f) => Err(HostCallError::from_value_fault(f)),
    }
}

/// Calls a function that supports binary data: byte arrays among the arguments go into the
/// sidecar, and what comes back is made into a guest value. `encoder` and `decoder` convert between
/// the library's JSON and `serde_json` values.
pub fn call_bin<
    F: Function<Result<Vec<u8>, HostCallError>, (String, Vec<u8>)>,
    E: Function<serde_json::Value, Json>,
    D: Function<Json, serde_json::Value>,
>(func: &F, encoder: &E, decoder: &D, args: Vec<JsValue>) -> (r: Result<GuestValue, HostCallError>)
    ensures
        exists|call: Result<(Seq<char>, Seq<u8>), CallFault>| #[trigger]
            prepared(encoder, args@, call) && called(func, decoder, call, r),
{
    let ready = prepare_bin_call(encoder, args);
    let ghost call = call_contents(ready);
    assert(prepared(encoder, args@, call));
    let (text, packed) = match ready {
        Ok(ready) => ready,
        Err(e) => {
            assert(called(func, decoder, call, Err(e)));
            return Err(e);
        },
    };
    let out = func.call((text, packed));
    let ghost given = out;
    assert(call_ensures(F::call, (func, (text, packed)), given));
    let r = finish_bin_call(decoder, out);
    assert(bin_outcome(decoder, given, r));
    assert(called(func, decoder, call, r));
    r
}

/// What a call comes to whose arguments came to `call`.
pub open spec fn called<
    F: Function<Result<Vec<u8>, HostCallError>, (String, Vec<u8>)>,
    D: Function<Json, serde_json::Value>,
>(
    func: &F,
    decoder: &D,
    call: Result<(Seq<char>, Seq<u8>), CallFault>,
    r: Result<GuestValue, HostCallError>,
) -> bool {
    match call {
        Err(fault) => r matches Err(e) && e@ == fault,
        Ok((text, packed)) => exists|
            args: String,
            sidecar: Vec<u8>,
            out: Result<Vec<u8>, HostCallError>,
        |
            args@ == text && sidecar@ == packed && call_ensures(
                F::call,
                (func, (args, sidecar)),
                out,
            ) && bin_outcome(decoder, out, r),
    }
}

/// What a call of a function with binary data that gave `out` comes to. `decoder` turns a
/// `serde_json` value into the library's JSON.
pub open spec fn bin_outcome<D: Function<Json, serde_json::Value>>(
    decoder: &D,
    out: Result<Vec<u8>, HostCallError>,
    r: Result<GuestValue, HostCallError>,
) -> bool {
    match out {
        Err(e) => r matches Err(e2) && e2@ == in_context("Calling binary host function"@, e@),
        Ok(data) => match read_reply(data@) {
            Err(text) => r matches Err(e) && e@ == CallFault::Message(text),
            Ok(ReplyContents::Binary(bytes)) => r matches Ok(v) && v@ == GuestTree::Uint8Array(
                bytes,
            ),
            Ok(reply) => match json_parsed(reply_text(reply)) {
                Err(f) => gives(
                    r,
                    reply_value(reply, Err(CallFault::Message(json_error_text(f)))),
                ),
                Ok(value) => exists|json: Json|
                    call_ensures(D::call, (decoder, value), json) && gives(
                        r,
                        reply_value(reply, Ok(json@)),
                    ),
            },
        },
    }
}

/// The JSON text of a reply.
pub open spec fn reply_text(reply: ReplyContents) -> Seq<char> {
    match reply {
        ReplyContents::Json(text) => text,
        ReplyContents::JsonWithBlobs(text, _) => text,
        ReplyContents::Binary(_) => Seq::empty(),
    }
}

/// What a call that gave `out` comes to. `decoder` turns a `serde_json` value into the library's
/// JSON.
pub fn finish_bin_call<D: Function<Json, serde_json::Value>>(
    decoder: &D,
    out: Result<Vec<u8>, HostCallError>,
) -> (r: Result<GuestValue, HostCallError>)
    ensures
        bin_outcome(decoder, out, r),
{
    let data = match out {
        Ok(data) => data,
        Err(e) => {
            return Err(e.context("Calling binary host function"));
        },
    };
    match decode_reply(data.as_slice()) {
        Err(e) => Err(e),
        Ok(HostReply::Binary(bytes)) => Ok(GuestValue::Uint8Array(bytes)),
        Ok(HostReply::Json(text)) => finish_json(
            decoder,
            text.as_str(),
            "Parsing JSON return from host",
            None,
        ),
        Ok(HostReply::JsonWithBlobs(text, blobs)) => finish_json(
            decoder,
            text.as_str(),
            "Parsing JSON-with-binaries return from host",
            Some(&blobs),
        ),
    }
}

/// A module of host functions: the names of its functions, and a handle for each.
pub struct HostModule {
    functions: HandleTable,
}

impl View for HostModule {
    type V = Map<Seq<char>, u64>;

    closed spec fn view(&self) -> Map<Seq<char>, u64> {
        self.functions@
    }
}

impl Default for HostModule {
    fn default() -> (m: HostModule)
        ensures
            m@ == Map::<Seq<char>, u64>::empty(),
    {
        let functions = HandleTable::new();
        assert(functions@ =~= Map::<Seq<char>, u64>::empty());
        HostModule { functions }
    }
}

impl HostModule {
    /// Adds a function to the module, in place of any of that name.
    pub fn add_function<N: Message>(&mut self, name: N, func: u64) -> (r: &mut Self)
        ensures
            r@ == old(self)@.insert(name.message(), func),
            *final(self) == *final(r),
    {
        self.functions.insert(name.into_message(), func);
        self
    }

    /// The functions of the module, each once.
    pub fn functions(&self) -> (list: Vec<(String, u64)>)
        ensures
            lists_entries(list@, self@),
    {
        self.functions.entries()
    }
}

/// Finds modules of host functions when guest code imports them.
pub struct HostModuleLoader {
    index: HandleTable,
    modules: Vec<HostModule>,
}

impl HostModuleLoader {
    /// Every name refers to a module of the list, and no two names to the same one.
    #[verifier::type_invariant]
    spec fn indexed(self) -> bool {
        &&& forall|name: Seq<char>| #[trigger]
            self.index@.contains_key(name) ==> self.index@[name] < self.modules@.len()
        &&& forall|a: Seq<char>, b: Seq<char>|
            #![trigger self.index@.contains_key(a), self.index@.contains_key(b)]
            self.index@.contains_key(a) && self.index@.contains_key(b) && a != b
                ==> self.index@[a] != self.index@[b]
    }

    /// The modules, by name, with their functions.
    pub closed spec fn map(self) -> Map<Seq<char>, Map<Seq<char>, u64>> {
        Map::new(
            |name: Seq<char>| self.index@.contains_key(name),
            |name: Seq<char>| self.modules@[self.index@[name] as int]@,
        )
    }
}

impl View for HostModuleLoader {
    type V = Map<Seq<char>, Map<Seq<char>, u64>>;

    open spec fn view(&self) -> Map<Seq<char>, Map<Seq<char>, u64>> {
        self.map()
    }
}

impl Default for HostModuleLoader {
    fn default() -> (l: HostModuleLoader)
        ensures
            l@ == Map::<Seq<char>, Map<Seq<char>, u64>>::empty(),
    {
        let l = HostModuleLoader { index: HandleTable::new(), modules: Vec::new() };
        assert(l@ =~= Map::<Seq<char>, Map<Seq<char>, u64>>::empty());
        l
    }
}

impl HostModuleLoader {
    /// Adds a module, in place of any of that name.
    pub fn insert(&mut self, name: String, module: HostModule)
        ensures
            final(self)@ == old(self)@.insert(name@, module@),
    {
        proof {
            use_type_invariant(&*self);
        }
        let ghost before = self@;
        let mut index = HandleTable::new();
        let mut modules: Vec<HostModule> = Vec::new();
        core::mem::swap(&mut index, &mut self.index);
        core::mem::swap(&mut modules, &mut self.modules);
        match index.get(name.as_str()) {
            Some(handle) => {
                modules.set(handle as usize, module);
            },
            None => {
                let handle: u64 = modules.len() as u64;
                modules.push(module);
                index.insert(name, handle);
            },
        }
        *self = HostModuleLoader { index, modules };
        assert(self@ =~= before.insert(name@, module@));
    }

    /// Whether a name stands for a module where it is imported: then it stands for itself.
    pub fn resolve(&self, base: &str, name: &str) -> (r: Result<String, LoadError>)
        ensures
            match r {
                Ok(s) => self@.contains_key(name@) && s@ == name@,
                Err(e) => !self@.contains_key(name@) && (e matches LoadError::Resolving {
                    base: b,
                    name: n,
                } && b@ == base@ && n@ == name@),
            },
    {
        if !self.index.contains_key(name) {
            return Err(LoadError::Resolving { base: base.to_owned(), name: name.to_owned() });
        }
        Ok(name.to_owned())
    }

    /// Whether there is a module of a name to load.
    pub fn load(&self, name: &str) -> (r: Result<(), LoadError>)
        ensures
            match r {
                Ok(_) => self@.contains_key(name@),
                Err(e) => !self@.contains_key(name@) && (e matches LoadError::Loading { name: n }
                    && n@ == name@),
            },
    {
        if !self.index.contains_key(name) {
            return Err(LoadError::Loading { name: name.to_owned() });
        }
        Ok(())
    }

    /// What a module exports: its functions, each once. A name without a module exports nothing.
    pub fn exports(&self, name: &str) -> (list: Vec<(String, u64)>)
        ensures
            lists_entries(
                list@,
                if self@.contains_key(name@) {
                    self@[name@]
                } else {
                    Map::empty()
                },
            ),
    {
        proof {
            use_type_invariant(self);
        }
        match self.index.get(name) {
            Some(i) => {
                assert(self.index@.contains_key(name@));
                assert(i < self.modules.len());
                self.modules[i as usize].functions()
            },
            None => {
                assert(!self.index@.contains_key(name@));
                Vec::new()
            },
        }
    }
}

/// Whether the loader is installed in a context, or why it is not. `present` says that the context
/// has one already, `stored` that the context took this one.
pub fn install_outcome(present: bool, stored: bool) -> (r: Result<(), HostCallError>)
    ensures
        match r {
            Ok(_) => !present && stored,
            Err(e) => (present || !stored) && e@ == CallFault::Message(
                if present {
                    "HostModuleLoader is already installed"@
                } else {
                    "Failed to install HostModuleLoader"@
                },
            ),
        },
{
    if present {
        Err(HostCallError::Message("HostModuleLoader is already installed".to_owned()))
    } else if !stored {
        Err(HostCallError::Message("Failed to install HostModuleLoader".to_owned()))
    } else {
        Ok(())
    }
}

/// What a host function gave is what the guest reads: text and bytes come out as they went in, and
/// so does a sidecar, which is then read.
pub proof fn law_reply_is_what_the_host_gave(given: ReturnContents)
    requires
        return_fits(given),
        return_bytes(given).len() <= usize::MAX,
    ensures
        read_reply(return_bytes(given)) == (match given {
            ReturnContents::Json(text) => Ok::<ReplyContents, Seq<char>>(ReplyContents::Json(text)),
            ReturnContents::Binary(bytes) => Ok(ReplyContents::Binary(bytes)),
            ReturnContents::JsonWithBinaries(text, packed) => match parse_sidecar(packed) {
                Ok(blobs) => Ok(ReplyContents::JsonWithBlobs(text, blobs)),
                Err(f) => Err(sidecar_fault_text(f)),
            },
        }),
{
    law_return_round_trip(return_bytes(given), given);
}

/// The blobs that a host function packs into a sidecar are those that the guest reads.
pub proof fn law_reply_carries_its_blobs(text: Seq<char>, blobs: Seq<Seq<u8>>)
    requires
        sidecar_fits(blobs),
        sidecar(blobs).len() <= u32::MAX,
        return_bytes(ReturnContents::JsonWithBinaries(text, sidecar(blobs))).len() <= usize::MAX,
    ensures
        read_reply(return_bytes(ReturnContents::JsonWithBinaries(text, sidecar(blobs)))) == Ok::<
            ReplyContents,
            Seq<char>,
        >(ReplyContents::JsonWithBlobs(text, blobs)),
{
    law_reply_is_what_the_host_gave(ReturnContents::JsonWithBinaries(text, sidecar(blobs)));
    law_sidecar_round_trip(sidecar(blobs), blobs);
}

} // verus!
