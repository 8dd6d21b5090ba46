//! What becomes of byte arrays that leave the guest in a sidecar.

use crate::common::{
    law_sidecar_round_trip, lemma_frames_len, parse_sidecar, sidecar, sidecar_fits, SidecarFault,
    MAX_JSON_DEPTH, PLACEHOLDER_BIN,
};
use crate::json::{
    lacks_key, lemma_with_member_absent, placeholder_index, placeholder_tree, JsonNumber,
    JsonTree,
};
use crate::runtime::values::{
    float_to_json, guest_items, guest_members, js_items, js_members, js_to_json, json_to_guest,
    resolve_placeholder, GuestTree, JsTree, ValueFault,
};
use vstd::prelude::*;

verus! {

/// Within every object the keys are distinct, as those of a JavaScript object are.
pub open spec fn distinct_keys(v: JsTree) -> bool
    decreases v,
{
    match v {
        JsTree::Array(items) => forall|i: int|
            0 <= i < items.len() ==> distinct_keys(#[trigger] items[i]),
        JsTree::Object(members) => {
            &&& forall|i: int, j: int|
                0 <= i < j < members.len() ==> (#[trigger] members[i]).0 != (
                #[trigger] members[j]).0
            &&& forall|i: int| 0 <= i < members.len() ==> distinct_keys(#[trigger] members[i].1)
        },
        _ => true,
    }
}

/// `t` is the JSON of `v`: where `v` has a byte array, `t` has a placeholder, and the blob that it
/// refers to holds those bytes.
pub open spec fn carries(v: JsTree, t: JsonTree, blobs: Seq<Seq<u8>>) -> bool
    decreases v,
{
    match v {
        JsTree::Uint8Array(bytes) => exists|i: u64|
            i < blobs.len() && blobs[i as int] == bytes && t == #[trigger] placeholder_tree(i),
        JsTree::Array(items) => {
            &&& t matches JsonTree::Array(list)
            &&& list.len() == items.len()
            &&& forall|i: int|
                0 <= i < items.len() ==> carries(#[trigger] items[i], list[i], blobs)
        },
        JsTree::Object(members) => {
            &&& t matches JsonTree::Object(list)
            &&& list.len() == members.len()
            &&& forall|i: int|
                0 <= i < members.len() ==> (#[trigger] members[i]).0 == list[i].0 && carries(
                    members[i].1,
                    list[i].1,
                    blobs,
                )
        },
        JsTree::Undefined | JsTree::Null => t == JsonTree::Null,
        JsTree::Bool(b) => t == JsonTree::Bool(b),
        JsTree::Int(n) => t == JsonTree::Number(JsonNumber::of_int(n as i64)),
        JsTree::Float(bits) => t == float_to_json(bits),
        JsTree::String(s) => t == JsonTree::String(s),
        JsTree::Other(json) => t == json,
        JsTree::Unreadable => false,
    }
}

/// Blobs are only ever appended.
proof fn lemma_blobs_grow(v: JsTree, blobs: Seq<Seq<u8>>, depth: nat)
    ensures
        blobs.is_prefix_of(js_to_json(v, blobs, depth).1),
    decreases v, 0nat,
{
    if depth <= MAX_JSON_DEPTH {
        match v {
            JsTree::Array(items) => lemma_items_blobs_grow(items, items.len(), blobs, depth + 1),
            JsTree::Object(members) => lemma_members_blobs_grow(
                members,
                members.len(),
                blobs,
                depth + 1,
            ),
            _ => {},
        }
    }
}

proof fn lemma_items_blobs_grow(items: Seq<JsTree>, n: nat, blobs: Seq<Seq<u8>>, depth: nat)
    ensures
        blobs.is_prefix_of(js_items(items, n, blobs, depth).1),
    decreases items, n,
{
    if 0 < n <= items.len() {
        lemma_items_blobs_grow(items, (n - 1) as nat, blobs, depth);
        let after = js_items(items, (n - 1) as nat, blobs, depth).1;
        lemma_blobs_grow(items[n - 1], after, depth);
    }
}

proof fn lemma_members_blobs_grow(
    members: Seq<(Seq<char>, JsTree)>,
    n: nat,
    blobs: Seq<Seq<u8>>,
    depth: nat,
)
    ensures
        blobs.is_prefix_of(js_members(members, n, blobs, depth).1),
    decreases members, n,
{
    if 0 < n <= members.len() {
        lemma_members_blobs_grow(members, (n - 1) as nat, blobs, depth);
        let after = js_members(members, (n - 1) as nat, blobs, depth).1;
        lemma_blobs_grow(members[n - 1].1, after, depth);
    }
}

/// The JSON of a value carries its byte arrays: every placeholder that the conversion leaves
/// refers to the blob with the bytes of the array that stood there, in the list of blobs as it is
/// then and in any longer one.
pub proof fn law_placeholders_refer_to_their_bytes(
    v: JsTree,
    blobs: Seq<Seq<u8>>,
    depth: nat,
    all: Seq<Seq<u8>>,
)
    requires
        distinct_keys(v),
        js_to_json(v, blobs, depth).0 is Ok,
        js_to_json(v, blobs, depth).1.is_prefix_of(all),
        all.len() <= usize::MAX,
    ensures
        carries(v, js_to_json(v, blobs, depth).0->Ok_0, all),
    decreases v, 0nat,
{
    let (r, after) = js_to_json(v, blobs, depth);
    match v {
        JsTree::Uint8Array(bytes) => {
            let i = blobs.len() as u64;
            assert(after.len() <= all.len());
            assert(all[i as int] == after[i as int]);
            assert(r->Ok_0 == placeholder_tree(i));
        },
        JsTree::Array(items) => {
            lemma_items_carry(items, items.len(), blobs, depth + 1, all);
        },
        JsTree::Object(members) => {
            lemma_members_carry(members, members.len(), blobs, depth + 1, all);
        },
        _ => {},
    }
}

/// The JSON of items carries the byte arrays of each of them.
pub proof fn lemma_items_carry(
    items: Seq<JsTree>,
    n: nat,
    blobs: Seq<Seq<u8>>,
    depth: nat,
    all: Seq<Seq<u8>>,
)
    requires
        n <= items.len(),
        forall|i: int| 0 <= i < items.len() ==> distinct_keys(#[trigger] items[i]),
        js_items(items, n, blobs, depth).0 is Ok,
        js_items(items, n, blobs, depth).1.is_prefix_of(all),
        all.len() <= usize::MAX,
    ensures
        js_items(items, n, blobs, depth).0->Ok_0.len() == n,
        forall|i: int|
            0 <= i < n ==> carries(
                #[trigger] items[i],
                js_items(items, n, blobs, depth).0->Ok_0[i],
                all,
            ),
    decreases items, n,
{
    if n > 0 {
        let (before, after) = js_items(items, (n - 1) as nat, blobs, depth);
        lemma_blobs_grow(items[n - 1], after, depth);
        lemma_items_carry(items, (n - 1) as nat, blobs, depth, all);
        law_placeholders_refer_to_their_bytes(items[n - 1], after, depth, all);
    }
}

proof fn lemma_members_carry(
    members: Seq<(Seq<char>, JsTree)>,
    n: nat,
    blobs: Seq<Seq<u8>>,
    depth: nat,
    all: Seq<Seq<u8>>,
)
    requires
        n <= members.len(),
        forall|i: int| 0 <= i < members.len() ==> distinct_keys(#[trigger] members[i].1),
        forall|i: int, j: int|
            0 <= i < j < members.len() ==> (#[trigger] members[i]).0 != (#[trigger] members[j]).0,
        js_members(members, n, blobs, depth).0 is Ok,
        js_members(members, n, blobs, depth).1.is_prefix_of(all),
        all.len() <= usize::MAX,
    ensures
        js_members(members, n, blobs, depth).0->Ok_0.len() == n,
        forall|i: int|
            0 <= i < n ==> (#[trigger] members[i]).0 == js_members(
                members,
                n,
                blobs,
                depth,
            ).0->Ok_0[i].0 && carries(
                members[i].1,
                js_members(members, n, blobs, depth).0->Ok_0[i].1,
                all,
            ),
    decreases members, n,
{
    if n > 0 {
        let (before, after) = js_members(members, (n - 1) as nat, blobs, depth);
        let member = members[n - 1];
        lemma_blobs_grow(member.1, after, depth);
        lemma_members_carry(members, (n - 1) as nat, blobs, depth, all);
        law_placeholders_refer_to_their_bytes(member.1, after, depth, all);
        let list = before->Ok_0;
        let value = js_to_json(member.1, after, depth).0->Ok_0;
        assert(lacks_key(list, member.0)) by {
            assert forall|i: int| 0 <= i < list.len() implies (#[trigger] list[i]).0 != member.0 by {
                assert(members[i].0 == list[i].0);
            }
        }
        lemma_with_member_absent(list, member.0, value);
    }
}

/// Nothing in the tree reads as a placeholder.
pub open spec fn plain_json(t: JsonTree) -> bool
    decreases t,
{
    match t {
        JsonTree::Array(items) => forall|i: int|
            0 <= i < items.len() ==> plain_json(#[trigger] items[i]),
        JsonTree::Object(members) => {
            &&& placeholder_index(members) is None
            &&& forall|i: int| 0 <= i < members.len() ==> plain_json(#[trigger] members[i].1)
        },
        _ => true,
    }
}

/// The value becomes a non-negative integer in JSON.
pub open spec fn becomes_index(v: JsTree) -> bool {
    match v {
        JsTree::Int(n) => n >= 0,
        JsTree::Float(bits) => float_to_json(bits) matches JsonTree::Number(n)
            && n.u64_value() is Some,
        JsTree::Other(t) => t matches JsonTree::Number(n) && n.u64_value() is Some,
        _ => false,
    }
}

/// No object in the value uses the reserved key so that it would read as a placeholder.
pub open spec fn reserved_key_unused(v: JsTree) -> bool
    decreases v,
{
    match v {
        JsTree::Array(items) => forall|i: int|
            0 <= i < items.len() ==> reserved_key_unused(#[trigger] items[i]),
        JsTree::Object(members) => {
            &&& !(members.len() == 1 && members[0].0 == PLACEHOLDER_BIN@ && becomes_index(
                members[0].1,
            ))
            &&& forall|i: int|
                0 <= i < members.len() ==> reserved_key_unused(#[trigger] members[i].1)
        },
        JsTree::Other(t) => plain_json(t),
        _ => true,
    }
}

/// How a guest value looks once it has been to the host and back: byte arrays keep their bytes,
/// and everything else is what its JSON stands for.
pub open spec fn returns_as(v: JsTree, depth: nat) -> Result<GuestTree, ValueFault>
    decreases v, 0nat,
{
    if v is Unreadable {
        Err(ValueFault::Unreadable)
    } else if depth > MAX_JSON_DEPTH {
        Err(ValueFault::TooDeep)
    } else {
        match v {
            JsTree::Uint8Array(bytes) => Ok(GuestTree::Uint8Array(bytes)),
            JsTree::Undefined | JsTree::Null => Ok(GuestTree::Null),
            JsTree::Bool(b) => Ok(GuestTree::Bool(b)),
            JsTree::Int(n) => Ok(GuestTree::Int(n)),
            JsTree::Float(bits) => json_to_guest(float_to_json(bits), None, depth),
            JsTree::String(s) => Ok(GuestTree::String(s)),
            JsTree::Array(items) => match return_items(items, items.len(), depth + 1) {
                Ok(list) => Ok(GuestTree::Array(list)),
                Err(f) => Err(f),
            },
            JsTree::Object(members) => match return_members(members, members.len(), depth + 1) {
                Ok(list) => Ok(GuestTree::Object(list)),
                Err(f) => Err(f),
            },
            JsTree::Other(t) => json_to_guest(t, None, depth),
            JsTree::Unreadable => Err(ValueFault::Unreadable),
        }
    }
}

/// How the first `n` items look.
pub open spec fn return_items(items: Seq<JsTree>, n: nat, depth: nat) -> Result<
    Seq<GuestTree>,
    ValueFault,
>
    decreases items, n,
{
    if n == 0 || n > items.len() {
        Ok(Seq::empty())
    } else {
        match return_items(items, (n - 1) as nat, depth) {
            Err(f) => Err(f),
            Ok(list) => match returns_as(items[n - 1], depth) {
                Ok(item) => Ok(list.push(item)),
                Err(f) => Err(f),
            },
        }
    }
}

/// How the first `n` members look.
pub open spec fn return_members(
    members: Seq<(Seq<char>, JsTree)>,
    n: nat,
    depth: nat,
) -> Result<Seq<(Seq<char>, GuestTree)>, ValueFault>
    decreases members, n,
{
    if n == 0 || n > members.len() {
        Ok(Seq::empty())
    } else {
        match return_members(members, (n - 1) as nat, depth) {
            Err(f) => Err(f),
            Ok(list) => match returns_as(members[n - 1].1, depth) {
                Ok(value) => Ok(list.push((members[n - 1].0, value))),
                Err(f) => Err(f),
            },
        }
    }
}

/// Where nothing reads as a placeholder, blobs make no difference.
pub proof fn law_plain_json_needs_no_blobs(t: JsonTree, blobs: Seq<Seq<u8>>, depth: nat)
    requires
        plain_json(t),
    ensures
        json_to_guest(t, Some(blobs), depth) == json_to_guest(t, None, depth),
    decreases t, 0nat,
{
    if depth <= MAX_JSON_DEPTH {
        match t {
            JsonTree::Array(items) => lemma_plain_items(items, items.len(), blobs, depth + 1),
            JsonTree::Object(members) => lemma_plain_members(
                members,
                members.len(),
                blobs,
                depth + 1,
            ),
            _ => {},
        }
    }
}

proof fn lemma_plain_items(items: Seq<JsonTree>, n: nat, blobs: Seq<Seq<u8>>, depth: nat)
    requires
        forall|i: int| 0 <= i < items.len() ==> plain_json(#[trigger] items[i]),
    ensures
        guest_items(items, n, Some(blobs), depth) == guest_items(items, n, None, depth),
    decreases items, n,
{
    if 0 < n <= items.len() {
        lemma_plain_items(items, (n - 1) as nat, blobs, depth);
        law_plain_json_needs_no_blobs(items[n - 1], blobs, depth);
    }
}

proof fn lemma_plain_members(
    members: Seq<(Seq<char>, JsonTree)>,
    n: nat,
    blobs: Seq<Seq<u8>>,
    depth: nat,
)
    requires
        forall|i: int| 0 <= i < members.len() ==> plain_json(#[trigger] members[i].1),
    ensures
        guest_members(members, n, Some(blobs), depth) == guest_members(members, n, None, depth),
    decreases members, n,
{
    if 0 < n <= members.len() {
        lemma_plain_members(members, (n - 1) as nat, blobs, depth);
        law_plain_json_needs_no_blobs(members[n - 1].1, blobs, depth);
    }
}

/// A value whose JSON is resolved against its blobs comes back with its bytes: what the guest
/// gets is what [`returns_as`] says of the value that was sent.
pub proof fn law_bytes_come_back(v: JsTree, t: JsonTree, blobs: Seq<Seq<u8>>, depth: nat)
    requires
        carries(v, t, blobs),
        reserved_key_unused(v),
        blobs.len() <= usize::MAX,
    ensures
        json_to_guest(t, Some(blobs), depth) == returns_as(v, depth),
    decreases v, 0nat,
{
    if depth <= MAX_JSON_DEPTH {
        match v {
            JsTree::Uint8Array(bytes) => {
                let i = choose|i: u64|
                    i < blobs.len() && blobs[i as int] == bytes && t == #[trigger] placeholder_tree(
                        i,
                    );
                let members = t->Object_0;
                assert(members[0] == (
                    PLACEHOLDER_BIN@,
                    JsonTree::Number(JsonNumber::PosInt(i)),
                ));
                assert(resolve_placeholder(members, Some(blobs)) == Ok::<
                    Option<Seq<u8>>,
                    ValueFault,
                >(Some(bytes)));
            },
            JsTree::Array(items) => {
                lemma_items_come_back(items, t->Array_0, items.len(), blobs, depth + 1);
            },
            JsTree::Object(members) => {
                let list = t->Object_0;
                assert(placeholder_index(list) is None) by {
                    if list.len() == 1 && list[0].0 == PLACEHOLDER_BIN@ {
                        assert(members[0].0 == list[0].0);
                        lemma_not_index(members[0].1, list[0].1, blobs);
                    }
                }
                lemma_members_come_back(members, list, members.len(), blobs, depth + 1);
            },
            JsTree::Other(json) => law_plain_json_needs_no_blobs(json, blobs, depth),
            _ => {},
        }
    }
}

/// What does not become a non-negative integer has a JSON form that is none.
pub proof fn lemma_not_index(v: JsTree, t: JsonTree, blobs: Seq<Seq<u8>>)
    requires
        carries(v, t, blobs),
        !becomes_index(v),
    ensures
        !(t matches JsonTree::Number(n) && n.u64_value() is Some),
{
}

proof fn lemma_items_come_back(
    items: Seq<JsTree>,
    list: Seq<JsonTree>,
    n: nat,
    blobs: Seq<Seq<u8>>,
    depth: nat,
)
    requires
        n <= items.len(),
        list.len() == items.len(),
        forall|i: int| 0 <= i < items.len() ==> carries(#[trigger] items[i], list[i], blobs),
        forall|i: int| 0 <= i < items.len() ==> reserved_key_unused(#[trigger] items[i]),
        blobs.len() <= usize::MAX,
    ensures
        guest_items(list, n, Some(blobs), depth) == return_items(items, n, depth),
    decreases items, n,
{
    if n > 0 {
        lemma_items_come_back(items, list, (n - 1) as nat, blobs, depth);
        law_bytes_come_back(items[n - 1], list[n - 1], blobs, depth);
    }
}

proof fn lemma_members_come_back(
    members: Seq<(Seq<char>, JsTree)>,
    list: Seq<(Seq<char>, JsonTree)>,
    n: nat,
    blobs: Seq<Seq<u8>>,
    depth: nat,
)
    requires
        n <= members.len(),
        list.len() == members.len(),
        forall|i: int|
            0 <= i < members.len() ==> (#[trigger] members[i]).0 == list[i].0 && carries(
                members[i].1,
                list[i].1,
                blobs,
            ),
        forall|i: int| 0 <= i < members.len() ==> reserved_key_unused(#[trigger] members[i].1),
        blobs.len() <= usize::MAX,
    ensures
        guest_members(list, n, Some(blobs), depth) == return_members(members, n, depth),
    decreases members, n,
{
    if n > 0 {
        lemma_members_come_back(members, list, (n - 1) as nat, blobs, depth);
        let member = members[n - 1];
        assert(member.0 == list[n - 1].0);
        law_bytes_come_back(member.1, list[n - 1].1, blobs, depth);
    }
}

/// The arguments of a call, with their byte arrays sent in a sidecar, come back as they were:
/// the blobs that are read from the sidecar are those that were taken out, and each argument
/// resolved against them is what [`returns_as`] says of it.
pub proof fn law_arguments_come_back(args: Seq<JsTree>, i: int)
    requires
        0 <= i < args.len(),
        forall|j: int| 0 <= j < args.len() ==> distinct_keys(#[trigger] args[j]),
        reserved_key_unused(args[i]),
        js_items(args, args.len(), Seq::empty(), 0).0 is Ok,
        sidecar_fits(js_items(args, args.len(), Seq::empty(), 0).1),
    ensures
        ({
            let (json, blobs) = js_items(args, args.len(), Seq::empty(), 0);
            &&& parse_sidecar(sidecar(blobs)) == Ok::<Seq<Seq<u8>>, SidecarFault>(blobs)
            &&& json_to_guest(json->Ok_0[i], Some(blobs), 0) == returns_as(args[i], 0)
        }),
{
    let (json, blobs) = js_items(args, args.len(), Seq::empty(), 0);
    law_sidecar_round_trip(sidecar(blobs), blobs);
    lemma_frames_len(blobs);
    lemma_items_carry(args, args.len(), Seq::empty(), 0, blobs);
    law_bytes_come_back(args[i], json->Ok_0[i], blobs, 0);
}

} // verus!
