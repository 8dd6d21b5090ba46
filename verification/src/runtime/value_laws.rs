//! What the conversion of values keeps, in either direction, and when it succeeds.

use crate::double::{is_finite, whole_i64};
use crate::json::{placeholder_index, JsonNumber, JsonTree};
use crate::runtime::round_trip::{carries, distinct_keys, lemma_items_carry};
use crate::runtime::values::{
    guest_items, guest_members, js_items, js_members, js_to_json, json_to_guest,
    value_fault_text, GuestTree, GuestValue, JsTree, JsValue, ValueFault,
};
use crate::text::decimal;
use vstd::prelude::*;

verus! {

// ── Going out ────────────────────────────────────────────────────────

/// The engine could read all of the value.
pub open spec fn all_read(v: JsTree) -> bool
    decreases v,
{
    match v {
        JsTree::Unreadable => false,
        JsTree::Array(items) => forall|i: int|
            0 <= i < items.len() ==> all_read(#[trigger] items[i]),
        JsTree::Object(members) => forall|i: int|
            0 <= i < members.len() ==> all_read((#[trigger] members[i]).1),
        _ => true,
    }
}

/// Nothing in the value stands deeper in it than `levels`.
pub open spec fn js_nests_within(v: JsTree, levels: int) -> bool
    decreases v,
{
    &&& levels >= 0
    &&& match v {
        JsTree::Array(items) => forall|i: int|
            0 <= i < items.len() ==> js_nests_within(#[trigger] items[i], levels - 1),
        JsTree::Object(members) => forall|i: int|
            0 <= i < members.len() ==> js_nests_within((#[trigger] members[i]).1, levels - 1),
        _ => true,
    }
}

/// The byte arrays in the value, in the order in which they stand.
pub open spec fn byte_arrays(v: JsTree) -> Seq<Seq<u8>>
    decreases v, 0nat,
{
    match v {
        JsTree::Uint8Array(bytes) => seq![bytes],
        JsTree::Array(items) => item_byte_arrays(items, items.len()),
        JsTree::Object(members) => member_byte_arrays(members, members.len()),
        _ => Seq::empty(),
    }
}

/// The byte arrays in the first `n` items.
pub open spec fn item_byte_arrays(items: Seq<JsTree>, n: nat) -> Seq<Seq<u8>>
    decreases items, n,
{
    if n == 0 || n > items.len() {
        Seq::empty()
    } else {
        item_byte_arrays(items, (n - 1) as nat) + byte_arrays(items[n - 1])
    }
}

/// The byte arrays in the first `n` members.
pub open spec fn member_byte_arrays(members: Seq<(Seq<char>, JsTree)>, n: nat) -> Seq<Seq<u8>>
    decreases members, n,
{
    if n == 0 || n > members.len() {
        Seq::empty()
    } else {
        member_byte_arrays(members, (n - 1) as nat) + byte_arrays(members[n - 1].1)
    }
}

/// A value is converted just where the engine could read all of it and nothing stands deeper in it
/// than 64 levels, counted from the top of what is converted. The fault says which of the two is
/// not so. The blobs that come with the JSON are the byte arrays of the value, in order, behind
/// those that were there.
pub proof fn law_value_is_sent(v: JsTree, blobs: Seq<Seq<u8>>, depth: nat)
    ensures
        match js_to_json(v, blobs, depth) {
            (Ok(_), after) => all_read(v) && js_nests_within(v, 64 - depth) && after == blobs
                + byte_arrays(v),
            (Err(ValueFault::Unreadable), _) => !all_read(v),
            (Err(ValueFault::TooDeep), _) => !js_nests_within(v, 64 - depth),
            _ => false,
        },
    decreases v, 0nat,
{
    if !(v is Unreadable) && depth <= 64 {
        match v {
            JsTree::Array(items) => {
                lemma_items_are_sent(items, items.len(), blobs, depth + 1);
            },
            JsTree::Object(members) => {
                lemma_members_are_sent(members, members.len(), blobs, depth + 1);
            },
            _ => {
                assert(js_to_json(v, blobs, depth).1 =~= blobs + byte_arrays(v));
            },
        }
    }
}

proof fn lemma_items_are_sent(items: Seq<JsTree>, n: nat, blobs: Seq<Seq<u8>>, depth: nat)
    requires
        n <= items.len(),
    ensures
        match js_items(items, n, blobs, depth) {
            (Ok(list), after) => {
                &&& list.len() == n
                &&& forall|i: int|
                    0 <= i < n ==> all_read(#[trigger] items[i]) && js_nests_within(
                        items[i],
                        64 - depth,
                    )
                &&& after == blobs + item_byte_arrays(items, n)
            },
            (Err(ValueFault::Unreadable), _) => exists|i: int|
                0 <= i < n && !all_read(#[trigger] items[i]),
            (Err(ValueFault::TooDeep), _) => exists|i: int|
                0 <= i < n && !js_nests_within(#[trigger] items[i], 64 - depth),
            _ => false,
        },
    decreases items, n,
{
    if n > 0 {
        lemma_items_are_sent(items, (n - 1) as nat, blobs, depth);
        let (before, after) = js_items(items, (n - 1) as nat, blobs, depth);
        law_value_is_sent(items[n - 1], after, depth);
        if js_items(items, n, blobs, depth).0 is Ok {
            assert(js_items(items, n, blobs, depth).1 =~= blobs + item_byte_arrays(items, n));
        }
    } else {
        assert(blobs + item_byte_arrays(items, n) =~= blobs);
    }
}

proof fn lemma_members_are_sent(
    members: Seq<(Seq<char>, JsTree)>,
    n: nat,
    blobs: Seq<Seq<u8>>,
    depth: nat,
)
    requires
        n <= members.len(),
    ensures
        match js_members(members, n, blobs, depth) {
            (Ok(_), after) => {
                &&& forall|i: int|
                    0 <= i < n ==> all_read((#[trigger] members[i]).1) && js_nests_within(
                        members[i].1,
                        64 - depth,
                    )
                &&& after == blobs + member_byte_arrays(members, n)
            },
            (Err(ValueFault::Unreadable), _) => exists|i: int|
                0 <= i < n && !all_read((#[trigger] members[i]).1),
            (Err(ValueFault::TooDeep), _) => exists|i: int|
                0 <= i < n && !js_nests_within((#[trigger] members[i]).1, 64 - depth),
            _ => false,
        },
    decreases members, n,
{
    if n > 0 {
        lemma_members_are_sent(members, (n - 1) as nat, blobs, depth);
        let (before, after) = js_members(members, (n - 1) as nat, blobs, depth);
        law_value_is_sent(members[n - 1].1, after, depth);
        if js_members(members, n, blobs, depth).0 is Ok {
            assert(js_members(members, n, blobs, depth).1 =~= blobs + member_byte_arrays(
                members,
                n,
            ));
        }
    } else {
        assert(blobs + member_byte_arrays(members, n) =~= blobs);
    }
}

/// Numbers keep their value on the way out: a finite double that is no whole number within the range
/// of an `i64` is sent with the same 64 bits, so sign and fraction are kept; one that is, and an
/// integer, is sent as the integer of that value. What is no number has no JSON number.
pub proof fn law_numbers_are_sent(bits: u64, n: i32, blobs: Seq<Seq<u8>>, depth: nat)
    requires
        depth <= 64,
    ensures
        js_to_json(JsTree::Float(bits), blobs, depth).0 matches Ok(t) && match t {
            JsonTree::Null => !is_finite(bits),
            JsonTree::Number(JsonNumber::Float(sent)) => is_finite(bits) && whole_i64(bits) is None
                && sent == bits,
            JsonTree::Number(sent) => is_finite(bits) && (whole_i64(bits) matches Some(whole)
                && sent.integer() == Some(whole as int)),
            _ => false,
        },
        js_to_json(JsTree::Int(n), blobs, depth).0 matches Ok(JsonTree::Number(sent))
            && sent.integer() == Some(n as int),
        js_to_json(JsTree::Float(bits), blobs, depth).1 == blobs,
        js_to_json(JsTree::Int(n), blobs, depth).1 == blobs,
{
}

/// The arguments of a call are converted one by one: there is one JSON value for each argument, it
/// is the JSON of that argument, and the blobs are the byte arrays of all of them, in order.
pub proof fn law_arguments_are_sent(args: Seq<JsTree>)
    requires
        forall|i: int| 0 <= i < args.len() ==> distinct_keys(#[trigger] args[i]),
        item_byte_arrays(args, args.len()).len() <= usize::MAX,
    ensures
        match js_items(args, args.len(), Seq::empty(), 0) {
            (Ok(list), blobs) => {
                &&& list.len() == args.len()
                &&& blobs == item_byte_arrays(args, args.len())
                &&& forall|i: int|
                    0 <= i < args.len() ==> carries(#[trigger] args[i], list[i], blobs)
            },
            (Err(_), _) => exists|i: int|
                0 <= i < args.len() && !(all_read(#[trigger] args[i]) && js_nests_within(args[i], 64)),
        },
{
    lemma_items_are_sent(args, args.len(), Seq::empty(), 0);
    let (list, blobs) = js_items(args, args.len(), Seq::empty(), 0);
    if list is Ok {
        assert(blobs =~= item_byte_arrays(args, args.len()));
        lemma_items_carry(args, args.len(), Seq::empty(), 0, blobs);
    }
}

/// The tree of a guest's value holds what the value holds.
pub proof fn law_js_tree_holds_the_value(value: JsValue)
    ensures
        match (value, value@) {
            (JsValue::Undefined, JsTree::Undefined) => true,
            (JsValue::Null, JsTree::Null) => true,
            (JsValue::Bool(a), JsTree::Bool(b)) => a == b,
            (JsValue::Int(a), JsTree::Int(b)) => a == b,
            (JsValue::Float(a), JsTree::Float(b)) => a == b,
            (JsValue::String(a), JsTree::String(b)) => a@ == b,
            (JsValue::Uint8Array(a), JsTree::Uint8Array(b)) => a@ == b,
            (JsValue::Array(a), JsTree::Array(b)) => a@.len() == b.len() && forall|i: int|
                0 <= i < b.len() ==> #[trigger] b[i] == a@[i]@,
            (JsValue::Object(a), JsTree::Object(b)) => a@.len() == b.len() && forall|i: int|
                0 <= i < b.len() ==> #[trigger] b[i] == (a@[i].0@, a@[i].1@),
            (JsValue::Other(a), JsTree::Other(b)) => a@ == b,
            (JsValue::Unreadable, JsTree::Unreadable) => true,
            _ => false,
        },
{
}

// ── Coming back ──────────────────────────────────────────────────────

/// The guest's value is what the JSON stands for: the same truth values and texts, numbers of the
/// same value, and arrays and objects of such values in the same order. Where there are blobs, a
/// byte array with the bytes of blob `N` stands for `{"__bin__": N}`.
pub open spec fn guest_stands_for(
    g: GuestTree,
    t: JsonTree,
    blobs: Option<Seq<Seq<u8>>>,
) -> bool
    decreases t,
{
    match t {
        JsonTree::Null => g == GuestTree::Null,
        JsonTree::Bool(b) => g == GuestTree::Bool(b),
        JsonTree::Number(n) => guest_number(g, n),
        JsonTree::String(s) => g == GuestTree::String(s),
        JsonTree::Array(items) => {
            &&& g matches GuestTree::Array(list)
            &&& list.len() == items.len()
            &&& forall|i: int|
                0 <= i < items.len() ==> guest_stands_for(list[i], #[trigger] items[i], blobs)
        },
        JsonTree::Object(members) => match (blobs, placeholder_index(members)) {
            (Some(list), Some(n)) => {
                &&& (n as usize) < list.len()
                &&& g == GuestTree::Uint8Array(list[n as usize as int])
            },
            _ => {
                &&& g matches GuestTree::Object(list)
                &&& list.len() == members.len()
                &&& forall|i: int|
                    0 <= i < members.len() ==> list[i].0 == (#[trigger] members[i]).0
                        && guest_stands_for(list[i].1, members[i].1, blobs)
            },
        },
    }
}

/// The guest's number has the value of the JSON number: an integer of 32 bits where that is stored as
/// one, and else the double that is nearest to the JSON number as it is.
pub open spec fn guest_number(g: GuestTree, n: JsonNumber) -> bool {
    match g {
        GuestTree::Int(i) => n.integer() == Some(i as int),
        GuestTree::Double(m) => m == n && !(n.integer() matches Some(i) && i32::MIN <= i
            <= i32::MAX),
        _ => false,
    }
}

/// Nothing that is looked at stands deeper in the tree than `levels`, where a placeholder is not
/// looked into.
pub open spec fn json_nests_within(t: JsonTree, blobs: Option<Seq<Seq<u8>>>, levels: int) -> bool
    decreases t,
{
    &&& levels >= 0
    &&& match t {
        JsonTree::Array(items) => forall|i: int|
            0 <= i < items.len() ==> json_nests_within(#[trigger] items[i], blobs, levels - 1),
        JsonTree::Object(members) => (blobs is Some && placeholder_index(members) is Some) || forall|
            i: int,
        |
            0 <= i < members.len() ==> json_nests_within(
                (#[trigger] members[i]).1,
                blobs,
                levels - 1,
            ),
        _ => true,
    }
}

/// Every placeholder refers to one of the blobs, if there are blobs.
pub open spec fn refers_to_blobs(t: JsonTree, blobs: Option<Seq<Seq<u8>>>) -> bool
    decreases t,
{
    match t {
        JsonTree::Array(items) => forall|i: int|
            0 <= i < items.len() ==> refers_to_blobs(#[trigger] items[i], blobs),
        JsonTree::Object(members) => match (blobs, placeholder_index(members)) {
            (Some(list), Some(n)) => (n as usize) < list.len(),
            _ => forall|i: int|
                0 <= i < members.len() ==> refers_to_blobs((#[trigger] members[i]).1, blobs),
        },
        _ => true,
    }
}

/// The fault is one that a tree can have that has a placeholder without its blob.
spec fn blob_is_missing(f: ValueFault, blobs: Option<Seq<Seq<u8>>>) -> bool {
    &&& f matches ValueFault::NoSuchBlob { index, blobs: n }
    &&& blobs matches Some(list)
    &&& n == list.len() as usize
    &&& index >= list.len()
}

/// What the host gave is made into a guest's value that stands for it, just where nothing stands
/// deeper in it than 64 levels and every placeholder refers to a blob. The fault says which of the
/// two is not so, and names an index that no blob has and how many blobs there are.
pub proof fn law_guest_gets_what_the_host_gave(
    t: JsonTree,
    blobs: Option<Seq<Seq<u8>>>,
    depth: nat,
)
    ensures
        match json_to_guest(t, blobs, depth) {
            Ok(g) => guest_stands_for(g, t, blobs) && json_nests_within(t, blobs, 64 - depth)
                && refers_to_blobs(t, blobs),
            Err(ValueFault::TooDeep) => !json_nests_within(t, blobs, 64 - depth),
            Err(ValueFault::NoSuchBlob { index, blobs: n }) => {
                &&& !refers_to_blobs(t, blobs)
                &&& blobs matches Some(list)
                &&& n == list.len() as usize
                &&& index >= list.len()
            },
            Err(ValueFault::Unreadable) => false,
        },
    decreases t, 0nat,
{
    if depth <= 64 {
        match t {
            JsonTree::Array(items) => {
                lemma_guest_gets_items(items, items.len(), blobs, depth + 1);
            },
            JsonTree::Object(members) => {
                lemma_guest_gets_members(members, members.len(), blobs, depth + 1);
            },
            _ => {},
        }
    }
}

proof fn lemma_guest_gets_items(
    items: Seq<JsonTree>,
    n: nat,
    blobs: Option<Seq<Seq<u8>>>,
    depth: nat,
)
    requires
        n <= items.len(),
    ensures
        match guest_items(items, n, blobs, depth) {
            Ok(list) => {
                &&& list.len() == n
                &&& forall|i: int|
                    0 <= i < n ==> guest_stands_for(list[i], #[trigger] items[i], blobs)
                        && json_nests_within(items[i], blobs, 64 - depth) && refers_to_blobs(
                        items[i],
                        blobs,
                    )
            },
            Err(ValueFault::TooDeep) => exists|i: int|
                0 <= i < n && !json_nests_within(#[trigger] items[i], blobs, 64 - depth),
            Err(f) => blob_is_missing(f, blobs) && exists|i: int|
                0 <= i < n && !refers_to_blobs(#[trigger] items[i], blobs),
        },
    decreases items, n,
{
    if n > 0 {
        lemma_guest_gets_items(items, (n - 1) as nat, blobs, depth);
        law_guest_gets_what_the_host_gave(items[n - 1], blobs, depth);
    }
}

proof fn lemma_guest_gets_members(
    members: Seq<(Seq<char>, JsonTree)>,
    n: nat,
    blobs: Option<Seq<Seq<u8>>>,
    depth: nat,
)
    requires
        n <= members.len(),
    ensures
        match guest_members(members, n, blobs, depth) {
            Ok(list) => {
                &&& list.len() == n
                &&& forall|i: int|
                    0 <= i < n ==> list[i].0 == (#[trigger] members[i]).0 && guest_stands_for(
                        list[i].1,
                        members[i].1,
                        blobs,
                    ) && json_nests_within(members[i].1, blobs, 64 - depth) && refers_to_blobs(
                        members[i].1,
                        blobs,
                    )
            },
            Err(ValueFault::TooDeep) => exists|i: int|
                0 <= i < n && !json_nests_within((#[trigger] members[i]).1, blobs, 64 - depth),
            Err(f) => blob_is_missing(f, blobs) && exists|i: int|
                0 <= i < n && !refers_to_blobs((#[trigger] members[i]).1, blobs),
        },
    decreases members, n,
{
    if n > 0 {
        lemma_guest_gets_members(members, (n - 1) as nat, blobs, depth);
        law_guest_gets_what_the_host_gave(members[n - 1].1, blobs, depth);
    }
}

/// Every JSON number that is no integer of 32 bits reaches the guest as the double of that same
/// number, sign and fraction included, and every one that is reaches it as that integer.
pub proof fn law_numbers_reach_the_guest(
    n: JsonNumber,
    blobs: Option<Seq<Seq<u8>>>,
    depth: nat,
)
    requires
        depth <= 64,
    ensures
        json_to_guest(JsonTree::Number(n), blobs, depth) == Ok::<GuestTree, ValueFault>(
            GuestTree::Double(n),
        ) <==> !(n.integer() matches Some(i) && i32::MIN <= i <= i32::MAX),
        n.integer() matches Some(i) ==> i32::MIN <= i <= i32::MAX ==> json_to_guest(
            JsonTree::Number(n),
            blobs,
            depth,
        ) == Ok::<GuestTree, ValueFault>(GuestTree::Int(i as i32)),
{
}

/// A number comes back from the host as it was: an integer as the same integer, and a finite double
/// that is no whole number within the range of an `i64` with the same 64 bits.
pub proof fn law_numbers_come_back(bits: u64, n: i32, blobs: Seq<Seq<u8>>, depth: nat)
    requires
        depth <= 64,
    ensures
        json_to_guest(
            js_to_json(JsTree::Int(n), blobs, depth).0->Ok_0,
            Some(blobs),
            depth,
        ) == Ok::<GuestTree, ValueFault>(GuestTree::Int(n)),
        is_finite(bits) && whole_i64(bits) is None ==> json_to_guest(
            js_to_json(JsTree::Float(bits), blobs, depth).0->Ok_0,
            Some(blobs),
            depth,
        ) == Ok::<GuestTree, ValueFault>(GuestTree::Double(JsonNumber::Float(bits))),
{
}

/// The tree of a value for the guest holds what the value holds.
pub proof fn law_guest_tree_holds_the_value(value: GuestValue)
    ensures
        match (value, value@) {
            (GuestValue::Null, GuestTree::Null) => true,
            (GuestValue::Bool(a), GuestTree::Bool(b)) => a == b,
            (GuestValue::Int(a), GuestTree::Int(b)) => a == b,
            (GuestValue::Double(a), GuestTree::Double(b)) => a == b,
            (GuestValue::String(a), GuestTree::String(b)) => a@ == b,
            (GuestValue::Uint8Array(a), GuestTree::Uint8Array(b)) => a@ == b,
            (GuestValue::Array(a), GuestTree::Array(b)) => a@.len() == b.len() && forall|i: int|
                0 <= i < b.len() ==> #[trigger] b[i] == a@[i]@,
            (GuestValue::Object(a), GuestTree::Object(b)) => a@.len() == b.len() && forall|i: int|
                0 <= i < b.len() ==> #[trigger] b[i] == (a@[i].0@, a@[i].1@),
            _ => false,
        },
{
}

/// The message for a missing blob names the index that was asked for, then how many blobs there are.
pub proof fn law_missing_blobs_are_named(index: usize, blobs: usize)
    ensures
        value_fault_text(ValueFault::NoSuchBlob { index, blobs }) matches Some(text) && {
            &&& ("Binary placeholder index "@ + decimal(index as nat)).is_prefix_of(text)
            &&& ("(have "@ + decimal(blobs as nat) + " blobs)"@).is_suffix_of(text)
        },
{
    let text = value_fault_text(ValueFault::NoSuchBlob { index, blobs })->0;
    reveal_strlit(" out of bounds (have ");
    reveal_strlit(" out of bounds ");
    reveal_strlit("(have ");
    assert(" out of bounds (have "@ =~= " out of bounds "@ + "(have "@);
    let front = "Binary placeholder index "@ + decimal(index as nat);
    let back = "(have "@ + decimal(blobs as nat) + " blobs)"@;
    assert(text =~= front + " out of bounds "@ + back);
}

} // verus!
