//! What the bindings keep of the values that they convert, and when converting them succeeds.

use crate::common::{FnReturn, ReturnContents};
use crate::double::{is_finite, whole_i64};
use crate::host_api::error::ErrorCode;
use crate::host_api::node::{
    arg_to_node, json_to_node, node_fault_text, node_items, node_members, spread, NodeFault,
    NodeTree, NodeValue,
};
use crate::host_api::python::{
    json_py, key_text, py_items, py_json, py_members, render_outcome, PyFault, PyKey, PyProbe,
    PyReturnError, PyText, PyTree, PyValue,
};
use crate::json::{
    lacks_key, lemma_with_member_absent, placeholder_index, JsonNumber, JsonTree,
};
use crate::runtime::value_laws::{json_nests_within, refers_to_blobs};
use crate::runtime::values::{js_to_json, value_fault_text, JsTree, ValueFault};
use crate::sandbox::json_text::json_rendered;
use vstd::prelude::*;

verus! {

// ── Arguments ────────────────────────────────────────────────────────

/// A list of arguments is taken apart into its items, in order. Anything else is one argument.
pub proof fn law_arguments_are_spread(args: JsonTree)
    ensures
        args is Array ==> args == JsonTree::Array(spread(args)),
        !(args is Array) ==> spread(args).len() == 1 && spread(args)[0] == args,
{
}

// ── Node.js ──────────────────────────────────────────────────────────

/// The Node.js value is what the JSON stands for: arrays and objects of such values in the same
/// order, a `Buffer` with the bytes of blob `N` for `{"__bin__": N}`, and anything else as it is.
pub open spec fn node_stands_for(v: NodeTree, t: JsonTree, blobs: Seq<Seq<u8>>) -> bool
    decreases t,
{
    match t {
        JsonTree::Array(items) => {
            &&& v matches NodeTree::Array(list)
            &&& list.len() == items.len()
            &&& forall|i: int|
                0 <= i < items.len() ==> node_stands_for(list[i], #[trigger] items[i], blobs)
        },
        JsonTree::Object(members) => match placeholder_index(members) {
            Some(n) => {
                &&& (n as usize) < blobs.len()
                &&& v == NodeTree::Buffer(blobs[n as usize as int])
            },
            None => {
                &&& v matches NodeTree::Object(list)
                &&& list.len() == members.len()
                &&& forall|i: int|
                    0 <= i < members.len() ==> list[i].0 == (#[trigger] members[i]).0
                        && node_stands_for(list[i].1, members[i].1, blobs)
            },
        },
        other => v == NodeTree::Plain(other),
    }
}

/// Node.js can hold the arrays and objects of the tree: no array has 2^32 items, and no key that is
/// looked at has a null byte in it.
pub open spec fn node_can_hold(t: JsonTree) -> bool
    decreases t,
{
    match t {
        JsonTree::Array(items) => items.len() < 0x1_0000_0000 && forall|i: int|
            0 <= i < items.len() ==> node_can_hold(#[trigger] items[i]),
        JsonTree::Object(members) => placeholder_index(members) is Some || forall|i: int|
            0 <= i < members.len() ==> !(#[trigger] members[i]).0.contains('\0') && node_can_hold(
                members[i].1,
            ),
        _ => true,
    }
}

/// What holds of the tree where converting it fails.
spec fn node_fault_holds(
    f: NodeFault,
    deep: bool,
    missing: bool,
    too_large: bool,
    blobs: Seq<Seq<u8>>,
) -> bool {
    match f {
        NodeFault::TooDeep => deep,
        NodeFault::NoSuchBlob { index, blobs: n } => missing && n == blobs.len() as usize && index
            >= blobs.len(),
        NodeFault::NullByteInKey | NodeFault::ArrayTooLong { .. } => too_large,
    }
}

/// The JSON of an argument is made into a Node.js value that stands for it, just where nothing
/// stands deeper in it than 64 levels, every placeholder refers to a blob, and Node.js can hold its
/// arrays and objects. The fault says which of these is not so.
pub proof fn law_node_gets_what_the_json_says(t: JsonTree, blobs: Seq<Seq<u8>>, depth: nat)
    ensures
        match json_to_node(t, blobs, depth) {
            Ok(v) => {
                &&& node_stands_for(v, t, blobs)
                &&& json_nests_within(t, Some(blobs), 64 - depth)
                &&& refers_to_blobs(t, Some(blobs))
                &&& node_can_hold(t)
            },
            Err(NodeFault::TooDeep) => !json_nests_within(t, Some(blobs), 64 - depth),
            Err(NodeFault::NoSuchBlob { index, blobs: n }) => !refers_to_blobs(t, Some(blobs)) && n
                == blobs.len() as usize && index >= blobs.len(),
            Err(NodeFault::NullByteInKey) | Err(NodeFault::ArrayTooLong { .. }) => !node_can_hold(t),
        },
    decreases t, 0nat,
{
    if depth <= 64 {
        match t {
            JsonTree::Array(items) => {
                lemma_node_gets_items(items, items.len(), blobs, depth + 1);
            },
            JsonTree::Object(members) => {
                lemma_node_gets_members(members, members.len(), blobs, depth + 1);
            },
            _ => {},
        }
    }
}

proof fn lemma_node_gets_items(items: Seq<JsonTree>, n: nat, blobs: Seq<Seq<u8>>, depth: nat)
    requires
        n <= items.len(),
    ensures
        match node_items(items, n, blobs, depth) {
            Ok(list) => {
                &&& list.len() == n
                &&& forall|i: int|
                    0 <= i < n ==> node_stands_for(list[i], #[trigger] items[i], blobs)
                        && json_nests_within(items[i], Some(blobs), 64 - depth) && refers_to_blobs(
                        items[i],
                        Some(blobs),
                    ) && node_can_hold(items[i])
            },
            Err(f) => exists|i: int|
                0 <= i < n && node_fault_holds(
                    f,
                    !json_nests_within(#[trigger] items[i], Some(blobs), 64 - depth),
                    !refers_to_blobs(items[i], Some(blobs)),
                    !node_can_hold(items[i]),
                    blobs,
                ),
        },
    decreases items, n,
{
    if n > 0 {
        lemma_node_gets_items(items, (n - 1) as nat, blobs, depth);
        law_node_gets_what_the_json_says(items[n - 1], blobs, depth);
    }
}

proof fn lemma_node_gets_members(
    members: Seq<(Seq<char>, JsonTree)>,
    n: nat,
    blobs: Seq<Seq<u8>>,
    depth: nat,
)
    requires
        n <= members.len(),
    ensures
        match node_members(members, n, blobs, depth) {
            Ok(list) => {
                &&& list.len() == n
                &&& forall|i: int|
                    0 <= i < n ==> list[i].0 == (#[trigger] members[i]).0 && node_stands_for(
                        list[i].1,
                        members[i].1,
                        blobs,
                    ) && json_nests_within(members[i].1, Some(blobs), 64 - depth)
                        && refers_to_blobs(members[i].1, Some(blobs)) && node_can_hold(
                        members[i].1,
                    ) && !members[i].0.contains('\0')
            },
            Err(f) => exists|i: int|
                0 <= i < n && node_fault_holds(
                    f,
                    !json_nests_within((#[trigger] members[i]).1, Some(blobs), 64 - depth),
                    !refers_to_blobs(members[i].1, Some(blobs)),
                    !node_can_hold(members[i].1) || members[i].0.contains('\0'),
                    blobs,
                ),
        },
    decreases members, n,
{
    if n > 0 {
        lemma_node_gets_members(members, (n - 1) as nat, blobs, depth);
        law_node_gets_what_the_json_says(members[n - 1].1, blobs, depth);
    }
}

/// An argument of a call without blobs arrives as what its own JSON stands for, whatever that JSON
/// is, and a call without blobs refuses no argument. With blobs, what arrives stands for the JSON
/// with those blobs.
pub proof fn law_arguments_reach_node(t: JsonTree, blobs: Seq<Seq<u8>>)
    ensures
        blobs.len() == 0 ==> arg_to_node(t, blobs) == Ok::<NodeTree, NodeFault>(NodeTree::Plain(t)),
        blobs.len() > 0 ==> match arg_to_node(t, blobs) {
            Ok(v) => node_stands_for(v, t, blobs),
            Err(_) => !(json_nests_within(t, Some(blobs), 64) && refers_to_blobs(t, Some(blobs))
                && node_can_hold(t)),
        },
{
    law_node_gets_what_the_json_says(t, blobs, 0);
}

/// Node.js and the guest put the faults alike that both of them know.
pub proof fn law_faults_are_put_alike(index: usize, blobs: usize)
    ensures
        Some(node_fault_text(NodeFault::TooDeep)) == value_fault_text(ValueFault::TooDeep),
        Some(node_fault_text(NodeFault::NoSuchBlob { index, blobs })) == value_fault_text(
            ValueFault::NoSuchBlob { index, blobs },
        ),
{
}

/// The tree of a value for Node.js holds what the value holds.
pub proof fn law_node_tree_holds_the_value(value: NodeValue)
    ensures
        match (value, value@) {
            (NodeValue::Plain(a), NodeTree::Plain(b)) => a@ == b,
            (NodeValue::Buffer(a), NodeTree::Buffer(b)) => a@ == b,
            (NodeValue::Array(a), NodeTree::Array(b)) => a@.len() == b.len() && forall|i: int|
                0 <= i < b.len() ==> #[trigger] b[i] == a@[i]@,
            (NodeValue::Object(a), NodeTree::Object(b)) => a@.len() == b.len() && forall|i: int|
                0 <= i < b.len() ==> #[trigger] b[i] == (a@[i].0@, a@[i].1@),
            _ => false,
        },
{
}

// ── Python ───────────────────────────────────────────────────────────

/// The Python object is what the JSON stands for: the same truth values, texts and numbers, and lists
/// and dicts of such objects in the same order. Where there are blobs and blob `N` is one of them,
/// its bytes stand for `{"__bin__": N}`.
pub open spec fn py_stands_for(p: PyTree, t: JsonTree, blobs: Option<Seq<Seq<u8>>>) -> bool
    decreases t,
{
    match t {
        JsonTree::Null => p == PyTree::Null,
        JsonTree::Bool(b) => p == PyTree::Bool(b),
        JsonTree::Number(n) => py_number(p, n),
        JsonTree::String(s) => p == PyTree::Str(s),
        JsonTree::Array(items) => {
            &&& p matches PyTree::List(list)
            &&& list.len() == items.len()
            &&& forall|i: int|
                0 <= i < items.len() ==> py_stands_for(list[i], #[trigger] items[i], blobs)
        },
        JsonTree::Object(members) => if blobs is Some && placeholder_index(members) is Some
            && (placeholder_index(members)->0 as usize) < blobs->0.len() {
            p == PyTree::Bytes(blobs->0[placeholder_index(members)->0 as usize as int])
        } else {
            &&& p matches PyTree::Dict(list)
            &&& list.len() == members.len()
            &&& forall|i: int|
                0 <= i < members.len() ==> list[i].0 == (#[trigger] members[i]).0 && py_stands_for(
                    list[i].1,
                    members[i].1,
                    blobs,
                )
        },
    }
}

/// The Python number is the JSON number: an `int` of that value where it is stored as one, else a
/// `float` with the same bits.
pub open spec fn py_number(p: PyTree, n: JsonNumber) -> bool {
    match p {
        PyTree::Int(i) => n.integer() == Some(i as int),
        PyTree::UInt(u) => n.integer() == Some(u as int) && u > i64::MAX,
        PyTree::Float(bits) => n == JsonNumber::Float(bits),
        _ => false,
    }
}

/// JSON is made into the Python object that stands for it.
pub proof fn law_python_gets_what_the_json_says(t: JsonTree, blobs: Option<Seq<Seq<u8>>>)
    ensures
        py_stands_for(json_py(t, blobs), t, blobs),
    decreases t,
{
    match t {
        JsonTree::Array(items) => {
            assert forall|i: int| 0 <= i < items.len() implies py_stands_for(
                json_py(t, blobs)->List_0[i],
                #[trigger] items[i],
                blobs,
            ) by {
                law_python_gets_what_the_json_says(items[i], blobs);
            }
        },
        JsonTree::Object(members) => {
            assert forall|i: int| 0 <= i < members.len() implies py_stands_for(
                json_py((#[trigger] members[i]).1, blobs),
                members[i].1,
                blobs,
            ) by {
                law_python_gets_what_the_json_says(members[i].1, blobs);
            }
        },
        _ => {},
    }
}

/// The key is a string with this text.
pub open spec fn is_key(key: PyKey, text: Seq<char>) -> bool {
    key matches PyKey::Text(PyText::Text(s)) && s@ == text
}

/// What can be read of a Python object is what can be read of `v`: of what comes before in the order
/// in which it is tried, it is nothing. A tuple is read as a list.
pub open spec fn reads_as(p: PyProbe, v: PyTree) -> bool
    decreases v,
{
    let no_number = !p.none && p.boolean is None && p.int is None && p.uint is None && p.float is None;
    match v {
        PyTree::Null => p.none,
        PyTree::Bool(b) => !p.none && p.boolean == Some(b),
        PyTree::Int(n) => !p.none && p.boolean is None && p.int == Some(n),
        PyTree::UInt(n) => {
            &&& !p.none && p.boolean is None && p.int is None
            &&& p.uint == Some(n)
            &&& n > i64::MAX
        },
        PyTree::Float(bits) => {
            &&& !p.none && p.boolean is None && p.int is None && p.uint is None
            &&& p.float == Some(bits)
            &&& is_finite(bits)
        },
        PyTree::Str(s) => {
            &&& no_number
            &&& p.text matches Some(PyText::Text(text))
            &&& text@ == s
        },
        PyTree::Bytes(_) => false,
        PyTree::List(items) => {
            &&& no_number && p.text is None
            &&& p.list is Some || p.tuple is Some
            &&& {
                let list = if p.list is Some {
                    p.list->0@
                } else {
                    p.tuple->0@
                };
                &&& list.len() == items.len()
                &&& forall|i: int| 0 <= i < items.len() ==> reads_as(list[i], #[trigger] items[i])
            }
        },
        PyTree::Dict(members) => {
            &&& no_number && p.text is None && p.list is None && p.tuple is None
            &&& p.dict is Some
            &&& p.dict->0@.len() == members.len()
            &&& forall|i: int|
                0 <= i < members.len() ==> is_key(p.dict->0@[i].0, (#[trigger] members[i]).0)
                    && reads_as(p.dict->0@[i].1, members[i].1)
            &&& forall|i: int, j: int|
                0 <= i < j < members.len() ==> (#[trigger] members[i]).0 != (
                #[trigger] members[j]).0
        },
    }
}

/// A Python object made of `None`, truth values, integers, finite floats, strings, lists, and dicts
/// with distinct strings as keys has a JSON form, and that JSON stands for the same object: what
/// Python gives comes back to Python as it was.
pub proof fn law_python_objects_come_back(p: PyProbe, v: PyTree)
    requires
        reads_as(p, v),
    ensures
        py_json(p) matches Ok(t) && json_py(t, None) == v && py_stands_for(v, t, None),
    decreases v, 0nat,
{
    match v {
        PyTree::List(items) => {
            let list = if p.list is Some {
                p.list->0@
            } else {
                p.tuple->0@
            };
            lemma_items_come_back(list, items, items.len());
            let t = py_json(p)->Ok_0;
            assert(json_py(t, None)->List_0 =~= items);
            law_python_gets_what_the_json_says(t, None);
        },
        PyTree::Dict(members) => {
            lemma_members_come_back(p.dict->0@, members, members.len());
            let t = py_json(p)->Ok_0;
            assert(json_py(t, None)->Dict_0 =~= members);
            law_python_gets_what_the_json_says(t, None);
        },
        _ => {},
    }
}

proof fn lemma_items_come_back(list: Seq<PyProbe>, items: Seq<PyTree>, n: nat)
    requires
        n <= items.len() == list.len(),
        forall|i: int| 0 <= i < items.len() ==> reads_as(list[i], #[trigger] items[i]),
    ensures
        py_items(list, n) matches Ok(json) && json.len() == n && forall|i: int|
            0 <= i < n ==> json_py(#[trigger] json[i], None) == items[i],
    decreases items, n,
{
    if n > 0 {
        lemma_items_come_back(list, items, (n - 1) as nat);
        assert(reads_as(list[n - 1], items[n - 1]));
        law_python_objects_come_back(list[n - 1], items[n - 1]);
    }
}

proof fn lemma_members_come_back(
    list: Seq<(PyKey, PyProbe)>,
    members: Seq<(Seq<char>, PyTree)>,
    n: nat,
)
    requires
        n <= members.len() == list.len(),
        forall|i: int|
            0 <= i < members.len() ==> is_key(list[i].0, (#[trigger] members[i]).0) && reads_as(
                list[i].1,
                members[i].1,
            ),
        forall|i: int, j: int|
            0 <= i < j < members.len() ==> (#[trigger] members[i]).0 != (#[trigger] members[j]).0,
    ensures
        py_members(list, n) matches Ok(json) && json.len() == n && forall|i: int|
            0 <= i < n ==> (#[trigger] json[i]).0 == members[i].0 && json_py(json[i].1, None)
                == members[i].1,
    decreases members, n,
{
    if n > 0 {
        lemma_members_come_back(list, members, (n - 1) as nat);
        let last = members[n - 1];
        assert(reads_as(list[n - 1].1, last.1));
        law_python_objects_come_back(list[n - 1].1, last.1);
        let before = py_members(list, (n - 1) as nat)->Ok_0;
        assert(lacks_key(before, last.0)) by {
            assert forall|i: int| 0 <= i < before.len() implies (#[trigger] before[i]).0 != last.0 by {
                assert(before[i].0 == members[i].0);
            }
        }
        lemma_with_member_absent(before, last.0, py_json(list[n - 1].1)->Ok_0);
    }
}

/// What has no JSON form is refused for its own reason: a float that is not finite, a text that
/// Python could not give, and what can be read as nothing at all.
pub proof fn law_python_refuses(p: PyProbe)
    requires
        !p.none,
        p.boolean is None,
        p.int is None,
        p.uint is None,
    ensures
        p.float matches Some(bits) ==> (py_json(p) == Err::<JsonTree, PyFault>(PyFault::NonFinite)
            <==> !is_finite(bits)),
        p.float is None && p.text == Some(PyText::Raised) ==> py_json(p) == Err::<JsonTree, PyFault>(
            PyFault::Raised,
        ),
        p.float is None && p.text is None && p.list is None && p.tuple is None && p.dict is None
            ==> py_json(p) == Err::<JsonTree, PyFault>(PyFault::Unsupported),
{
}

/// The items of a list are converted one by one, and the first that has no JSON form decides what is
/// reported.
pub proof fn law_python_items(items: Seq<PyProbe>, n: nat, i: int)
    requires
        0 <= i < n <= items.len(),
        forall|j: int| 0 <= j < i ==> py_json(#[trigger] items[j]) is Ok,
    ensures
        py_json(items[i]) matches Err(f) ==> py_items(items, n) == Err::<Seq<JsonTree>, PyFault>(f),
        py_items(items, n) matches Ok(list) ==> list.len() == n && py_json(items[i]) == Ok::<
            JsonTree,
            PyFault,
        >(list[i]),
    decreases n,
{
    if i < n - 1 {
        law_python_items(items, (n - 1) as nat, i);
    } else {
        lemma_items_before(items, (n - 1) as nat);
    }
}

proof fn lemma_items_before(items: Seq<PyProbe>, n: nat)
    requires
        n <= items.len(),
        forall|j: int| 0 <= j < n ==> py_json(#[trigger] items[j]) is Ok,
    ensures
        py_items(items, n) matches Ok(list) && list.len() == n,
    decreases n,
{
    if n > 0 {
        lemma_items_before(items, (n - 1) as nat);
    }
}

/// The members of a dict are converted one by one, and the first whose key or value has no JSON form
/// decides what is reported: its key, if that is no string, before its value.
pub proof fn law_python_members(members: Seq<(PyKey, PyProbe)>, n: nat, i: int)
    requires
        0 <= i < n <= members.len(),
        forall|j: int|
            0 <= j < i ==> ((#[trigger] members[j]).0 matches PyKey::Text(PyText::Text(_)))
                && py_json(members[j].1) is Ok,
    ensures
        members[i].0 is NotAString ==> py_members(members, n) == Err::<
            Seq<(Seq<char>, JsonTree)>,
            PyFault,
        >(PyFault::KeyNotAString),
        members[i].0 == PyKey::Text(PyText::Raised) ==> py_members(members, n) == Err::<
            Seq<(Seq<char>, JsonTree)>,
            PyFault,
        >(PyFault::Raised),
        (members[i].0 matches PyKey::Text(PyText::Text(_))) && py_json(members[i].1) is Err
            ==> py_members(members, n) == Err::<Seq<(Seq<char>, JsonTree)>, PyFault>(
            py_json(members[i].1)->Err_0,
        ),
    decreases n,
{
    if i < n - 1 {
        law_python_members(members, (n - 1) as nat, i);
    } else {
        lemma_members_before(members, (n - 1) as nat);
    }
}

proof fn lemma_members_before(members: Seq<(PyKey, PyProbe)>, n: nat)
    requires
        n <= members.len(),
        forall|j: int|
            0 <= j < n ==> ((#[trigger] members[j]).0 matches PyKey::Text(PyText::Text(_)))
                && py_json(members[j].1) is Ok,
    ensures
        py_members(members, n) is Ok,
    decreases n,
{
    if n > 0 {
        lemma_members_before(members, (n - 1) as nat);
        assert(key_text(members[n - 1].0) is Ok);
    }
}

/// The tree of a Python object holds what the object holds.
pub proof fn law_python_tree_holds_the_value(value: PyValue)
    ensures
        match (value, value@) {
            (PyValue::Null, PyTree::Null) => true,
            (PyValue::Bool(a), PyTree::Bool(b)) => a == b,
            (PyValue::Int(a), PyTree::Int(b)) => a == b,
            (PyValue::UInt(a), PyTree::UInt(b)) => a == b,
            (PyValue::Float(a), PyTree::Float(b)) => a == b,
            (PyValue::Str(a), PyTree::Str(b)) => a@ == b,
            (PyValue::Bytes(a), PyTree::Bytes(b)) => a@ == b,
            (PyValue::List(a), PyTree::List(b)) => a@.len() == b.len() && forall|i: int|
                0 <= i < b.len() ==> #[trigger] b[i] == a@[i]@,
            (PyValue::Dict(a), PyTree::Dict(b)) => a@.len() == b.len() && forall|i: int|
                0 <= i < b.len() ==> #[trigger] b[i] == (a@[i].0@, a@[i].1@),
            _ => false,
        },
{
}

// ── From the guest to the host ───────────────────────────────────────

/// A number of the guest keeps its value all the way to a host function, in either language: an integer
/// is that integer, a finite double that is no whole number within the range of an `i64` has the same
/// 64 bits, and one that is, is that whole number.
pub proof fn law_numbers_reach_host_functions(bits: u64, n: i32, blobs: Seq<Seq<u8>>)
    ensures
        ({
            let integer = js_to_json(JsTree::Int(n), blobs, 0).0->Ok_0;
            let double = js_to_json(JsTree::Float(bits), blobs, 0).0->Ok_0;
            &&& json_py(integer, Some(blobs)) == PyTree::Int(n as i64)
            &&& is_finite(bits) && whole_i64(bits) is None ==> json_py(double, Some(blobs))
                == PyTree::Float(bits) && arg_to_node(double, blobs) == Ok::<NodeTree, NodeFault>(
                NodeTree::Plain(JsonTree::Number(JsonNumber::Float(bits))),
            )
            &&& is_finite(bits) ==> (whole_i64(bits) matches Some(whole) ==> json_py(
                double,
                Some(blobs),
            ) == PyTree::Int(whole))
            &&& !is_finite(bits) ==> json_py(double, Some(blobs)) == PyTree::Null
        }),
{
}

/// The result of a Python function is sent as the text of its JSON, and where that could not be
/// written, the error is an internal one.
pub proof fn law_python_results_are_sent(
    value: serde_json::Value,
    r: Result<FnReturn, PyReturnError>,
)
    requires
        render_outcome(value, r),
    ensures
        match json_rendered(value) {
            Ok(text) => r matches Ok(ret) && ret@ == ReturnContents::Json(text),
            Err(_) => r matches Err(PyReturnError::Report(e)) && e@.0 == ErrorCode::Internal,
        },
{
}

} // verus!
