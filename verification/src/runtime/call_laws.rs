//! What a call of a host function hands over, and what the guest gets of it.

use crate::common::{
    contents, encode_fault, law_blobs_that_can_be_sent, law_return_round_trip, parse_return,
    parse_sidecar, return_bytes, return_fits, sidecar_fault_text, ReturnContents, SidecarFault,
};
use crate::json::{Json, JsonTree};
use crate::runtime::host_fn::{
    bin_outcome, call_contents, called, gives, in_context, json_outcome, packed_call, prepared,
    read_reply, reply_text, reply_value, value_call_fault, CallFault, HostCallError, HostReply,
    ReplyContents,
};
use crate::runtime::round_trip::{carries, distinct_keys};
use crate::runtime::value_laws::{
    all_read, guest_stands_for, item_byte_arrays, js_nests_within, json_nests_within,
    law_arguments_are_sent, law_guest_gets_what_the_host_gave, refers_to_blobs,
};
use crate::runtime::values::{
    js_items, js_trees, value_fault_text, GuestTree, GuestValue, JsValue, ValueFault,
};
use crate::sandbox::host_fn::Function;
use crate::sandbox::json_text::{json_parsed, json_rendered};
use vstd::prelude::*;

verus! {

/// The outer context of a fault stands before the inner one, and both before what went wrong. The
/// engine's own error is never put under one.
pub proof fn law_contexts_stack(outer: Seq<char>, inner: Seq<char>, text: Seq<char>)
    ensures
        in_context(outer, in_context(inner, CallFault::Message(text))) == CallFault::Message(
            outer + ": "@ + (inner + ": "@ + text),
        ),
        in_context(outer, CallFault::Engine) == CallFault::Engine,
{
}

/// A function that takes JSON text and gives JSON text gives the guest the text that it gave, and
/// where it failed, the call fails for that reason.
pub proof fn law_json_functions_give_their_text(
    out: Result<String, HostCallError>,
    r: Result<String, HostCallError>,
)
    requires
        json_outcome(out, r),
    ensures
        out matches Ok(text) ==> (r matches Ok(given) && given@ == text@),
        out matches Err(e) ==> (r matches Err(reported) && match e@ {
            CallFault::Engine => reported@ == CallFault::Engine,
            CallFault::Message(text) => reported@ == CallFault::Message(
                "Calling host function: "@ + text,
            ),
        }),
{
    reveal_strlit("Calling host function");
    reveal_strlit(": ");
    reveal_strlit("Calling host function: ");
    assert("Calling host function: "@ =~= "Calling host function"@ + ": "@);
}

/// The text is that of the arguments, and the sidecar holds their byte arrays: the list that the
/// encoder was given has one value for each argument, which is its JSON with the blobs that the
/// sidecar is read as.
pub open spec fn hands_over<E: Function<serde_json::Value, Json>>(
    encoder: &E,
    args: Seq<JsValue>,
    text: Seq<char>,
    packed: Seq<u8>,
) -> bool {
    let blobs = item_byte_arrays(js_trees(args), args.len());
    &&& parse_sidecar(packed) == Ok::<Seq<Seq<u8>>, SidecarFault>(blobs)
    &&& exists|whole: Json, value: serde_json::Value|
        #![trigger call_ensures(E::call, (encoder, whole), value)]
        {
            &&& call_ensures(E::call, (encoder, whole), value)
            &&& json_rendered(value) == Ok::<Seq<char>, serde_json::Error>(text)
            &&& whole@ matches JsonTree::Array(list)
            &&& list.len() == args.len()
            &&& forall|i: int| 0 <= i < args.len() ==> carries((#[trigger] args[i])@, list[i], blobs)
        }
}

/// Something stands in the way of the call: an argument cannot be converted, the arguments cannot be
/// written as text, or the byte arrays cannot be sent.
pub open spec fn cannot_be_sent<E: Function<serde_json::Value, Json>>(
    encoder: &E,
    args: Seq<JsValue>,
) -> bool {
    ||| exists|i: int|
        0 <= i < args.len() && !(all_read((#[trigger] args[i])@) && js_nests_within(args[i]@, 64))
    ||| exists|whole: Json, value: serde_json::Value|
        #![trigger call_ensures(E::call, (encoder, whole), value)]
        call_ensures(E::call, (encoder, whole), value) && json_rendered(value) is Err
    ||| encode_fault(item_byte_arrays(js_trees(args), args.len())) is Some
}

/// A call hands over its arguments and their byte arrays, unless something stands in the way.
pub proof fn law_calls_hand_over_their_arguments<E: Function<serde_json::Value, Json>>(
    encoder: &E,
    args: Seq<JsValue>,
    call: Result<(Seq<char>, Seq<u8>), CallFault>,
)
    requires
        prepared(encoder, args, call),
        forall|i: int| 0 <= i < args.len() ==> distinct_keys((#[trigger] args[i])@),
        item_byte_arrays(js_trees(args), args.len()).len() <= usize::MAX,
    ensures
        match call {
            Ok((text, packed)) => hands_over(encoder, args, text, packed),
            Err(_) => cannot_be_sent(encoder, args),
        },
{
    let trees = js_trees(args);
    assert forall|i: int| 0 <= i < trees.len() implies distinct_keys(#[trigger] trees[i]) by {
        assert(distinct_keys(args[i]@));
    }
    law_arguments_are_sent(trees);
    let (json, blobs) = js_items(trees, args.len(), Seq::empty(), 0);
    match json {
        Err(_) => {
            let i = choose|i: int|
                0 <= i < trees.len() && !(all_read(#[trigger] trees[i]) && js_nests_within(
                    trees[i],
                    64,
                ));
            assert(trees[i] == args[i]@);
        },
        Ok(list) => {
            law_blobs_that_can_be_sent(blobs);
            let (whole, value) = choose|whole: Json, value: serde_json::Value|
                whole@ == JsonTree::Array(list) && call_ensures(E::call, (encoder, whole), value)
                    && call == packed_call(value, blobs);
            assert(call_ensures(E::call, (encoder, whole), value));
            assert forall|i: int| 0 <= i < args.len() implies carries(
                (#[trigger] args[i])@,
                list[i],
                blobs,
            ) by {
                assert(trees[i] == args[i]@);
            }
        },
    }
}

/// A function with binary data is called with the text of the arguments and the sidecar of their byte
/// arrays, and what the guest gets is what comes of what the function gave. Where the call cannot be
/// made, it fails.
pub proof fn law_functions_are_called_with_the_arguments<
    F: Function<Result<Vec<u8>, HostCallError>, (String, Vec<u8>)>,
    E: Function<serde_json::Value, Json>,
    D: Function<Json, serde_json::Value>,
>(
    func: &F,
    encoder: &E,
    decoder: &D,
    args: Seq<JsValue>,
    call: Result<(Seq<char>, Seq<u8>), CallFault>,
    r: Result<GuestValue, HostCallError>,
)
    requires
        prepared(encoder, args, call),
        called(func, decoder, call, r),
        forall|i: int| 0 <= i < args.len() ==> distinct_keys((#[trigger] args[i])@),
        item_byte_arrays(js_trees(args), args.len()).len() <= usize::MAX,
    ensures
        match call {
            Ok(_) => exists|text: String, packed: Vec<u8>, out: Result<Vec<u8>, HostCallError>|
                #![trigger call_ensures(F::call, (func, (text, packed)), out)]
                {
                    &&& hands_over(encoder, args, text@, packed@)
                    &&& call_ensures(F::call, (func, (text, packed)), out)
                    &&& bin_outcome(decoder, out, r)
                },
            Err(fault) => cannot_be_sent(encoder, args) && (r matches Err(e) && e@ == fault),
        },
{
    law_calls_hand_over_their_arguments(encoder, args, call);
    if let Ok((text, packed)) = call {
        let (a, s, out) = choose|
            a: String,
            s: Vec<u8>,
            out: Result<Vec<u8>, HostCallError>,
        |
            a@ == text && s@ == packed && call_ensures(F::call, (func, (a, s)), out) && bin_outcome(
                decoder,
                out,
                r,
            );
        assert(call_ensures(F::call, (func, (a, s)), out));
    }
}

/// What the guest gets of a reply: bytes as a byte array with those bytes, and JSON as the value that
/// stands for it, with the blobs where there are some. Text that is not JSON makes the call fail.
pub proof fn law_guest_gets_the_reply(
    reply: ReplyContents,
    parsed: Result<JsonTree, CallFault>,
)
    ensures
        match reply {
            ReplyContents::Binary(bytes) => reply_value(reply, parsed) == Ok::<GuestTree, CallFault>(
                GuestTree::Uint8Array(bytes),
            ),
            ReplyContents::Json(_) => match (parsed, reply_value(reply, parsed)) {
                (Ok(t), Ok(g)) => guest_stands_for(g, t, None),
                (Ok(t), Err(_)) => !json_nests_within(t, None, 64),
                (Err(fault), given) => given == Err::<GuestTree, CallFault>(
                    in_context("Parsing JSON return from host"@, fault),
                ),
            },
            ReplyContents::JsonWithBlobs(_, blobs) => match (parsed, reply_value(reply, parsed)) {
                (Ok(t), Ok(g)) => guest_stands_for(g, t, Some(blobs)),
                (Ok(t), Err(_)) => !(json_nests_within(t, Some(blobs), 64) && refers_to_blobs(
                    t,
                    Some(blobs),
                )),
                (Err(fault), given) => given == Err::<GuestTree, CallFault>(
                    in_context("Parsing JSON-with-binaries return from host"@, fault),
                ),
            },
        },
{
    if let Ok(t) = parsed {
        match reply {
            ReplyContents::JsonWithBlobs(_, blobs) => {
                law_guest_gets_what_the_host_gave(t, Some(blobs), 0);
            },
            _ => {
                law_guest_gets_what_the_host_gave(t, None, 0);
                lemma_no_blobs_are_missing(t);
            },
        }
    }
}

/// Where there are no blobs, none is missing.
proof fn lemma_no_blobs_are_missing(t: JsonTree)
    ensures
        refers_to_blobs(t, None),
    decreases t,
{
    match t {
        JsonTree::Array(items) => {
            assert forall|i: int| 0 <= i < items.len() implies refers_to_blobs(
                #[trigger] items[i],
                None,
            ) by {
                lemma_no_blobs_are_missing(items[i]);
            }
        },
        JsonTree::Object(members) => {
            assert forall|i: int| 0 <= i < members.len() implies refers_to_blobs(
                (#[trigger] members[i]).1,
                None,
            ) by {
                lemma_no_blobs_are_missing(members[i].1);
            }
        },
        _ => {},
    }
}

/// The guest's value stands for what the decoder made of the parsed text, unless that cannot be
/// converted.
pub open spec fn stands_for_text<D: Function<Json, serde_json::Value>>(
    decoder: &D,
    text: Seq<char>,
    blobs: Option<Seq<Seq<u8>>>,
    r: Result<GuestValue, HostCallError>,
) -> bool {
    match json_parsed(text) {
        Err(_) => r is Err,
        Ok(value) => exists|json: Json| #[trigger]
            call_ensures(D::call, (decoder, value), json) && match r {
                Ok(v) => guest_stands_for(v@, json@, blobs),
                Err(_) => !(json_nests_within(json@, blobs, 64) && refers_to_blobs(json@, blobs)),
            },
    }
}

/// What a host function gave is what the guest gets: bytes as they are, JSON text as the value that
/// stands for it, and with a sidecar that can be read, with its blobs in the places where the text
/// refers to them.
pub proof fn law_guest_gets_what_was_sent<D: Function<Json, serde_json::Value>>(
    decoder: &D,
    given: ReturnContents,
    data: Vec<u8>,
    r: Result<GuestValue, HostCallError>,
)
    requires
        return_fits(given),
        data@ == return_bytes(given),
        data@.len() <= usize::MAX,
        bin_outcome(decoder, Ok(data), r),
    ensures
        match given {
            ReturnContents::Binary(bytes) => r matches Ok(v) && v@ == GuestTree::Uint8Array(bytes),
            ReturnContents::Json(text) => stands_for_text(decoder, text, None, r),
            ReturnContents::JsonWithBinaries(text, packed) => match parse_sidecar(packed) {
                Ok(blobs) => stands_for_text(decoder, text, Some(blobs), r),
                Err(_) => r is Err,
            },
        },
{
    law_return_round_trip(data@, given);
    if let Ok(reply) = read_reply(data@) {
        let text = match given {
            ReturnContents::Json(text) => text,
            ReturnContents::JsonWithBinaries(text, _) => text,
            ReturnContents::Binary(_) => Seq::empty(),
        };
        if !(given is Binary) {
            if let Ok(value) = json_parsed(text) {
                let json = choose|json: Json|
                    call_ensures(D::call, (decoder, value), json)
                        && gives(r, reply_value(reply, Ok(json@)));
                assert(call_ensures(D::call, (decoder, value), json));
                law_guest_gets_the_reply(reply, Ok(json@));
                lemma_no_blobs_are_missing(json@);
            }
        }
    }
}

/// Where a function with binary data failed, the call fails for that reason.
pub proof fn law_failures_reach_the_guest<D: Function<Json, serde_json::Value>>(
    decoder: &D,
    failure: HostCallError,
    r: Result<GuestValue, HostCallError>,
)
    requires
        bin_outcome(decoder, Err(failure), r),
    ensures
        r matches Err(e) && match failure@ {
            CallFault::Engine => e@ == CallFault::Engine,
            CallFault::Message(text) => e@ == CallFault::Message(
                "Calling binary host function: "@ + text,
            ),
        },
{
    reveal_strlit("Calling binary host function");
    reveal_strlit(": ");
    reveal_strlit("Calling binary host function: ");
    assert("Calling binary host function: "@ =~= "Calling binary host function"@ + ": "@);
}

/// A reply is read just where it is well formed: the return value can be read, and so can its sidecar
/// where it has one. What the guest is told otherwise is what is wrong with the one or the other.
pub proof fn law_malformed_replies_are_refused(data: Seq<u8>)
    ensures
        match parse_return(data) {
            Err(text) => read_reply(data) == Err::<ReplyContents, Seq<char>>(text),
            Ok(ReturnContents::JsonWithBinaries(_, packed)) => match parse_sidecar(packed) {
                Ok(_) => read_reply(data) is Ok,
                Err(f) => read_reply(data) == Err::<ReplyContents, Seq<char>>(sidecar_fault_text(f)),
            },
            Ok(_) => read_reply(data) is Ok,
        },
{
}

/// Where the bytes that a function gave are malformed, the call fails with what is wrong with them.
pub proof fn law_malformed_results_fail_the_call<D: Function<Json, serde_json::Value>>(
    decoder: &D,
    data: Vec<u8>,
    r: Result<GuestValue, HostCallError>,
)
    requires
        bin_outcome(decoder, Ok(data), r),
    ensures
        parse_return(data@) matches Err(text) ==> (r matches Err(e) && e@ == CallFault::Message(
            text,
        )),
{
}

/// Where the engine could not read a value, its own error is thrown, and for any other fault a message
/// is.
pub proof fn law_value_faults_are_reported(f: ValueFault)
    ensures
        value_call_fault(f) is Engine <==> f == ValueFault::Unreadable,
        value_call_fault(f) matches CallFault::Message(text) ==> value_fault_text(f) == Some(text),
        value_fault_text(f) is None <==> f == ValueFault::Unreadable,
{
}

/// Replies and errors hold what they were made of.
pub proof fn law_replies_hold_their_parts(text: String, bytes: Vec<u8>, blobs: Vec<Vec<u8>>)
    ensures
        HostReply::Json(text)@ == ReplyContents::Json(text@),
        HostReply::Binary(bytes)@ == ReplyContents::Binary(bytes@),
        HostReply::JsonWithBlobs(text, blobs)@ == ReplyContents::JsonWithBlobs(
            text@,
            contents(blobs@),
        ),
        HostCallError::Message(text)@ == CallFault::Message(text@),
        HostCallError::Engine@ == CallFault::Engine,
        reply_text(ReplyContents::Json(text@)) == text@,
        reply_text(ReplyContents::JsonWithBlobs(text@, contents(blobs@))) == text@,
{
}

/// What is ready to be handed over is the text and the bytes, and a call that is not ready has its
/// error.
pub proof fn law_ready_calls_hold_their_parts(
    text: String,
    packed: Vec<u8>,
    e: HostCallError,
    v: GuestValue,
)
    ensures
        call_contents(Ok((text, packed))) == Ok::<(Seq<char>, Seq<u8>), CallFault>(
            (text@, packed@),
        ),
        call_contents(Err(e)) == Err::<(Seq<char>, Seq<u8>), CallFault>(e@),
        gives(Ok(v), Ok(v@)),
        gives(Err(e), Err(e@)),
        !gives(Ok(v), Err(e@)),
        !gives(Err(e), Ok(v@)),
{
}

} // verus!
