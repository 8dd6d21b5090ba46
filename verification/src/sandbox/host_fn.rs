//! Host functions that guest code can call.

use crate::common::{
    contents, encode_binary_return, encode_json_return, encode_json_with_binaries_return,
    law_return_round_trip, law_sidecar_round_trip, parse_return, parse_sidecar, return_bytes,
    return_fits, sidecar, sidecar_fault_text, sidecar_fits, FnReturn, Message, ReturnContents,
    SidecarFault,
};
use crate::names::NameMap;
use crate::sandbox::error::{ErrorContents, HyperlightError};
use crate::sandbox::json_text::{json_parsed, parse_json};
use crate::text::{decimal, push_decimal, with_text};
use vstd::prelude::*;
use vstd::string::*;

verus! {

/// A host function: it takes its arguments as one value.
pub trait Function<Output, Args> {
    /// Calls the function.
    fn call(&self, args: Args) -> Output;
}

/// What a typed host function gives: JSON text.
pub type TypedResult = Result<String, HyperlightError>;

/// What a bridge function is given: the parsed arguments, with `{"__bin__": N}` placeholders still
/// in place, and the blobs they refer to.
pub type BridgeArgs = (serde_json::Value, Vec<Vec<u8>>);

/// What a bridge function gives.
pub type BridgeResult = Result<FnReturn, HyperlightError>;

/// A registered host function.
#[derive(Debug)]
pub enum HostFn<T, B> {
    /// Takes JSON text and gives JSON text. It takes no binary arguments.
    Typed(T),
    /// Takes parsed JSON and blobs, and gives JSON or bytes.
    JsBridge(B),
}

/// A module of host functions that guest code can call.
#[derive(Debug)]
pub struct HostModule<T, B> {
    functions: NameMap<HostFn<T, B>>,
}

impl<T, B> View for HostModule<T, B> {
    type V = Map<Seq<char>, HostFn<T, B>>;

    closed spec fn view(&self) -> Map<Seq<char>, HostFn<T, B>> {
        self.functions@
    }
}

impl<T: Clone, B: Clone> Clone for HostFn<T, B> {
    fn clone(&self) -> (r: HostFn<T, B>)
        ensures
            match (*self, r) {
                (HostFn::Typed(func), HostFn::Typed(copy)) => cloned::<T>(func, copy),
                (HostFn::JsBridge(func), HostFn::JsBridge(copy)) => cloned::<B>(func, copy),
                _ => false,
            },
    {
        match self {
            HostFn::Typed(func) => HostFn::Typed(func.clone()),
            HostFn::JsBridge(func) => HostFn::JsBridge(func.clone()),
        }
    }
}

impl<T: Clone, B: Clone> Clone for HostModule<T, B> {
    fn clone(&self) -> (m: HostModule<T, B>)
        ensures
            m@.dom() == self@.dom(),
            forall|k: Seq<char>| #[trigger]
                self@.contains_key(k) ==> cloned::<HostFn<T, B>>(self@[k], m@[k]),
    {
        HostModule { functions: self.functions.clone() }
    }
}

impl<T, B> Default for HostModule<T, B> {
    fn default() -> (m: HostModule<T, B>)
        ensures
            m@ == Map::<Seq<char>, HostFn<T, B>>::empty(),
    {
        HostModule { functions: NameMap::new() }
    }
}

/// Reads a sidecar into its blobs.
pub fn decode_binaries(data: &[u8]) -> (r: Result<Vec<Vec<u8>>, HyperlightError>)
    ensures
        match r {
            Ok(blobs) => parse_sidecar(data@) == Ok::<Seq<Seq<u8>>, SidecarFault>(contents(blobs@)),
            Err(e) => parse_sidecar(data@) matches Err(f) && e@ == ErrorContents::Error(
                sidecar_fault_text(f),
            ),
        },
{
    match crate::common::decode_binaries(data) {
        Ok(blobs) => Ok(blobs),
        Err(e) => Err(HyperlightError::from_decode_error(e)),
    }
}

/// The blobs of a call, if its sidecar can be read. Without a sidecar there are none.
pub open spec fn call_blobs(binaries: Option<Vec<u8>>) -> Result<Seq<Seq<u8>>, SidecarFault> {
    match binaries {
        Some(data) => parse_sidecar(data@),
        None => Ok(Seq::empty()),
    }
}

/// The message for a typed function that is given binary arguments.
pub open spec fn binary_arguments_text(name: Seq<char>, n: nat) -> Seq<char> {
    "Function '"@ + name + "' received "@ + decimal(n)
        + " binary argument(s) but was registered with `register` (typed JSON-only). Use `register_js` for functions that accept Uint8Array/Buffer arguments."@
}

/// The message for a function that is not registered.
pub open spec fn not_found_text(name: Seq<char>) -> Seq<char> {
    "Function '"@ + name + "' not found"@
}

/// Tags what a bridge function gave, for the way back to the guest.
pub fn encode_fn_return(ret: FnReturn) -> (r: Result<Vec<u8>, HyperlightError>)
    ensures
        match r {
            Ok(buf) => return_fits(ret@) && buf@ == return_bytes(ret@),
            Err(e) => !return_fits(ret@) && e@ == ErrorContents::Error(
                "sidecar length exceeds u32::MAX"@,
            ),
        },
{
    match ret {
        FnReturn::Json(json) => Ok(encode_json_return(json.as_str())),
        FnReturn::Binary(data) => Ok(encode_binary_return(data.as_slice())),
        FnReturn::JsonWithBinaries(json, sidecar) => match encode_json_with_binaries_return(
            json.as_str(),
            sidecar.as_slice(),
        ) {
            Ok(buf) => Ok(buf),
            Err(e) => Err(HyperlightError::from_decode_error(e)),
        },
    }
}

/// What a call of a typed function that gave `out` comes to.
pub open spec fn typed_outcome(out: TypedResult, r: Result<Vec<u8>, HyperlightError>) -> bool {
    match out {
        Ok(json) => r matches Ok(buf) && buf@ == return_bytes(ReturnContents::Json(json@)),
        Err(e) => r == Err::<Vec<u8>, HyperlightError>(e),
    }
}

/// What a call of a bridge function that gave `out` comes to.
pub open spec fn bridge_outcome(out: BridgeResult, r: Result<Vec<u8>, HyperlightError>) -> bool {
    match out {
        Ok(ret) => match r {
            Ok(buf) => return_fits(ret@) && buf@ == return_bytes(ret@),
            Err(e) => !return_fits(ret@) && e@ == ErrorContents::Error(
                "sidecar length exceeds u32::MAX"@,
            ),
        },
        Err(e) => r == Err::<Vec<u8>, HyperlightError>(e),
    }
}

impl<T: Function<TypedResult, String>, B: Function<BridgeResult, BridgeArgs>> HostModule<T, B> {
    /// Registers a typed host function, in place of any function of that name.
    pub fn register<N: Message>(&mut self, name: N, func: T) -> (r: &mut Self)
        ensures
            r@ == old(self)@.insert(name.message(), HostFn::Typed(func)),
            *final(self) == *final(r),
    {
        self.functions.insert(name.into_message(), HostFn::Typed(func));
        self
    }

    /// Registers a bridge function, in place of any function of that name.
    pub fn register_js<N: Message>(&mut self, name: N, func: B) -> (r: &mut Self)
        ensures
            r@ == old(self)@.insert(name.message(), HostFn::JsBridge(func)),
            *final(self) == *final(r),
    {
        self.functions.insert(name.into_message(), HostFn::JsBridge(func));
        self
    }

    /// The names of the functions, each once: what the guest is told of the module.
    pub fn function_names(&self) -> (r: Vec<&str>)
        ensures
            forall|k: Seq<char>|
                #[trigger] self@.contains_key(k) <==> exists|i: int|
                    0 <= i < r@.len() && (#[trigger] r@[i])@ == k,
            forall|i: int, j: int|
                0 <= i < j < r@.len() ==> (#[trigger] r@[i])@ != (#[trigger] r@[j])@,
    {
        self.functions.names()
    }

    /// Dispatches a call from the guest.
    ///
    /// The sidecar is read first. A bridge function gets the parsed arguments and the blobs; a
    /// typed function gets the text, and no blobs may come with it. What the function gives is
    /// tagged for the way back.
    pub fn call(&self, name: &str, args_json: String, binaries: Option<Vec<u8>>) -> (r: Result<
        Vec<u8>,
        HyperlightError,
    >)
        ensures
            match call_blobs(binaries) {
                Err(f) => r matches Err(e) && e@ == ErrorContents::Error(sidecar_fault_text(f)),
                Ok(blobs) => if !self@.contains_key(name@) {
                    r matches Err(e) && e@ == ErrorContents::Error(not_found_text(name@))
                } else {
                    match self@[name@] {
                        HostFn::Typed(func) => if blobs.len() > 0 {
                            r matches Err(e) && e@ == ErrorContents::Error(
                                binary_arguments_text(name@, blobs.len()),
                            )
                        } else {
                            exists|out: TypedResult|
                                call_ensures(T::call, (&func, args_json), out) && typed_outcome(
                                    out,
                                    r,
                                )
                        },
                        HostFn::JsBridge(func) => match json_parsed(args_json@) {
                            Err(e) => r matches Err(e2) && e2@
                                == ErrorContents::JsonConversionFailure(e),
                            Ok(value) => exists|list: Vec<Vec<u8>>, out: BridgeResult|
                                contents(list@) == blobs && call_ensures(
                                    B::call,
                                    (&func, (value, list)),
                                    out,
                                ) && bridge_outcome(out, r),
                        },
                    }
                },
            },
    {
        let blobs: Vec<Vec<u8>> = match binaries {
            Some(data) => match decode_binaries(data.as_slice()) {
                Ok(blobs) => blobs,
                Err(e) => {
                    return Err(e);
                },
            },
            None => {
                let none: Vec<Vec<u8>> = Vec::new();
                assert(contents(none@) =~= Seq::<Seq<u8>>::empty());
                none
            },
        };
        assert(call_blobs(binaries) == Ok::<Seq<Seq<u8>>, SidecarFault>(contents(blobs@)));
        match self.functions.get(name) {
            Some(HostFn::JsBridge(func)) => {
                let value = match parse_json(args_json.as_str()) {
                    Ok(value) => value,
                    Err(e) => {
                        return Err(HyperlightError::JsonConversionFailure(e));
                    },
                };
                let out = func.call((value, blobs));
                let ghost given = out;
                assert(call_ensures(B::call, (func, (value, blobs)), given));
                let r = match out {
                    Ok(ret) => encode_fn_return(ret),
                    Err(e) => Err(e),
                };
                assert(bridge_outcome(given, r));
                r
            },
            Some(HostFn::Typed(func)) => {
                if blobs.len() > 0 {
                    let mut msg = with_text("Function '", name, "' received ");
                    push_decimal(&mut msg, blobs.len() as u64);
                    msg.append(
                        " binary argument(s) but was registered with `register` (typed JSON-only). Use `register_js` for functions that accept Uint8Array/Buffer arguments.",
                    );
                    return Err(HyperlightError::Error(msg));
                }
                let out = func.call(args_json);
                let ghost given = out;
                assert(call_ensures(T::call, (func, args_json), given));
                let r = match out {
                    Ok(json) => Ok(encode_json_return(json.as_str())),
                    Err(e) => Err(e),
                };
                assert(typed_outcome(given, r));
                r
            },
            None => Err(HyperlightError::Error(with_text("Function '", name, "' not found"))),
        }
    }
}

/// A call without a sidecar has no blobs, and one with the sidecar of some blobs has those.
pub proof fn law_calls_read_their_sidecar(blobs: Seq<Seq<u8>>, data: Vec<u8>)
    requires
        sidecar_fits(blobs),
        data@ == sidecar(blobs),
    ensures
        call_blobs(None) == Ok::<Seq<Seq<u8>>, SidecarFault>(Seq::empty()),
        call_blobs(Some(data)) == Ok::<Seq<Seq<u8>>, SidecarFault>(blobs),
{
    law_sidecar_round_trip(data@, blobs);
}

/// What a typed function gave is what is read on the other side, and its failure is passed on.
pub proof fn law_typed_results_are_passed_on(out: TypedResult, r: Result<Vec<u8>, HyperlightError>)
    requires
        typed_outcome(out, r),
        r matches Ok(data) ==> data@.len() <= usize::MAX,
    ensures
        out matches Ok(json) ==> (r matches Ok(data) && parse_return(data@) == Ok::<
            ReturnContents,
            Seq<char>,
        >(ReturnContents::Json(json@))),
        out matches Err(e) ==> r == Err::<Vec<u8>, HyperlightError>(e),
{
    if let (Ok(json), Ok(data)) = (out, r) {
        law_return_round_trip(data@, ReturnContents::Json(json@));
    }
}

/// What a bridge function gave is what is read on the other side, unless its sidecar has 2^32 bytes,
/// and its failure is passed on.
pub proof fn law_bridge_results_are_passed_on(
    out: BridgeResult,
    r: Result<Vec<u8>, HyperlightError>,
)
    requires
        bridge_outcome(out, r),
        r matches Ok(data) ==> data@.len() <= usize::MAX,
    ensures
        out matches Ok(ret) ==> match r {
            Ok(data) => parse_return(data@) == Ok::<ReturnContents, Seq<char>>(ret@),
            Err(_) => ret@ matches ReturnContents::JsonWithBinaries(_, packed) && packed.len()
                >= 0x1_0000_0000,
        },
        out matches Err(e) ==> r == Err::<Vec<u8>, HyperlightError>(e),
{
    if let (Ok(ret), Ok(data)) = (out, r) {
        law_return_round_trip(data@, ret@);
    }
}

/// What a call is refused with names the function, and where blobs came that it does not take, how
/// many.
pub proof fn law_refused_calls_name_the_function(name: Seq<char>, n: nat)
    ensures
        ("Function '"@ + name + "'"@).is_prefix_of(not_found_text(name)),
        ("Function '"@ + name + "' received "@ + decimal(n)).is_prefix_of(
            binary_arguments_text(name, n),
        ),
{
    reveal_strlit("' not found");
    reveal_strlit("'");
    assert(("Function '"@ + name + "'"@).is_prefix_of(not_found_text(name)));
}

} // verus!
