//! How the arguments of guest code reach host functions.

use crate::common::{MAX_JSON_DEPTH, PLACEHOLDER_BIN};
use crate::host_api::node::{json_to_node, node_items, node_members, NodeFault, NodeTree};
use crate::host_api::python::{json_py, placeholder_bytes, PyTree};
use crate::json::{placeholder_index, placeholder_tree, JsonNumber, JsonTree};
use crate::runtime::round_trip::{carries, lemma_not_index, plain_json, reserved_key_unused};
use crate::runtime::values::{float_to_json, JsTree};
use vstd::prelude::*;

verus! {

// ── Python ───────────────────────────────────────────────────────────

/// How a guest value looks in Python: a byte array is `bytes`, and everything else is what its
/// JSON stands for.
pub open spec fn python_sees(v: JsTree) -> PyTree
    decreases v,
{
    match v {
        JsTree::Uint8Array(bytes) => PyTree::Bytes(bytes),
        JsTree::Undefined | JsTree::Null | JsTree::Unreadable => PyTree::Null,
        JsTree::Bool(b) => PyTree::Bool(b),
        JsTree::Int(n) => PyTree::Int(n as i64),
        JsTree::Float(bits) => json_py(float_to_json(bits), None),
        JsTree::String(s) => PyTree::Str(s),
        JsTree::Array(items) => PyTree::List(
            Seq::new(
                items.len(),
                |i: int|
                    if 0 <= i < items.len() {
                        python_sees(items[i])
                    } else {
                        PyTree::Null
                    },
            ),
        ),
        JsTree::Object(members) => PyTree::Dict(
            Seq::new(
                members.len(),
                |i: int|
                    if 0 <= i < members.len() {
                        (members[i].0, python_sees(members[i].1))
                    } else {
                        (Seq::empty(), PyTree::Null)
                    },
            ),
        ),
        JsTree::Other(t) => json_py(t, None),
    }
}

/// Where nothing reads as a placeholder, blobs make no difference in Python.
proof fn lemma_plain_json_py(t: JsonTree, blobs: Seq<Seq<u8>>)
    requires
        plain_json(t),
    ensures
        json_py(t, Some(blobs)) == json_py(t, None),
    decreases t,
{
    match t {
        JsonTree::Array(items) => {
            assert forall|i: int| 0 <= i < items.len() implies json_py(
                #[trigger] items[i],
                Some(blobs),
            ) == json_py(items[i], None) by {
                lemma_plain_json_py(items[i], blobs);
            }
            assert(json_py(t, Some(blobs))->List_0 =~= json_py(t, None)->List_0);
        },
        JsonTree::Object(members) => {
            assert forall|i: int| 0 <= i < members.len() implies json_py(
                (#[trigger] members[i]).1,
                Some(blobs),
            ) == json_py(members[i].1, None) by {
                lemma_plain_json_py(members[i].1, blobs);
            }
            assert(json_py(t, Some(blobs))->Dict_0 =~= json_py(t, None)->Dict_0);
        },
        _ => {},
    }
}

/// The JSON that carries a guest value, resolved against its blobs, is that value as Python sees
/// it: byte arrays arrive with their bytes.
pub proof fn law_bytes_reach_python(v: JsTree, t: JsonTree, blobs: Seq<Seq<u8>>)
    requires
        carries(v, t, blobs),
        reserved_key_unused(v),
        blobs.len() <= usize::MAX,
    ensures
        json_py(t, Some(blobs)) == python_sees(v),
    decreases v,
{
    match v {
        JsTree::Uint8Array(bytes) => {
            let i = choose|i: u64|
                i < blobs.len() && blobs[i as int] == bytes && t == #[trigger] placeholder_tree(i);
            let members = t->Object_0;
            assert(members[0] == (PLACEHOLDER_BIN@, JsonTree::Number(JsonNumber::PosInt(i))));
            assert(placeholder_bytes(members, Some(blobs)) == Some(bytes));
        },
        JsTree::Array(items) => {
            let list = t->Array_0;
            assert forall|i: int| 0 <= i < items.len() implies json_py(
                #[trigger] list[i],
                Some(blobs),
            ) == python_sees(items[i]) by {
                assert(carries(items[i], list[i], blobs));
                law_bytes_reach_python(items[i], list[i], blobs);
            }
            assert(json_py(t, Some(blobs))->List_0 =~= python_sees(v)->List_0);
        },
        JsTree::Object(members) => {
            let list = t->Object_0;
            assert(placeholder_index(list) is None) by {
                if list.len() == 1 && list[0].0 == PLACEHOLDER_BIN@ {
                    assert(members[0].0 == list[0].0);
                    lemma_not_index(members[0].1, list[0].1, blobs);
                }
            }
            assert forall|i: int| 0 <= i < members.len() implies json_py(
                (#[trigger] list[i]).1,
                Some(blobs),
            ) == python_sees(members[i].1) && list[i].0 == members[i].0 by {
                assert(members[i].0 == list[i].0 && carries(members[i].1, list[i].1, blobs));
                law_bytes_reach_python(members[i].1, list[i].1, blobs);
            }
            assert(json_py(t, Some(blobs))->Dict_0 =~= python_sees(v)->Dict_0);
        },
        JsTree::Other(json) => lemma_plain_json_py(json, blobs),
        _ => {},
    }
}

// ── Node.js ──────────────────────────────────────────────────────────

/// How a guest value looks in Node.js: a byte array is a `Buffer`, and everything else is what its
/// JSON stands for, as far as Node.js can hold it.
pub open spec fn node_sees(v: JsTree, depth: nat) -> Result<NodeTree, NodeFault>
    decreases v, 0nat,
{
    if depth > MAX_JSON_DEPTH {
        Err(NodeFault::TooDeep)
    } else {
        match v {
            JsTree::Uint8Array(bytes) => Ok(NodeTree::Buffer(bytes)),
            JsTree::Undefined | JsTree::Null | JsTree::Unreadable => Ok(
                NodeTree::Plain(JsonTree::Null),
            ),
            JsTree::Bool(b) => Ok(NodeTree::Plain(JsonTree::Bool(b))),
            JsTree::Int(n) => Ok(
                NodeTree::Plain(JsonTree::Number(JsonNumber::of_int(n as i64))),
            ),
            JsTree::Float(bits) => Ok(NodeTree::Plain(float_to_json(bits))),
            JsTree::String(s) => Ok(NodeTree::Plain(JsonTree::String(s))),
            JsTree::Array(items) => if items.len() > u32::MAX {
                Err(NodeFault::ArrayTooLong { len: items.len() as usize })
            } else {
                match node_sees_items(items, items.len(), depth + 1) {
                    Ok(list) => Ok(NodeTree::Array(list)),
                    Err(f) => Err(f),
                }
            },
            JsTree::Object(members) => match node_sees_members(
                members,
                members.len(),
                depth + 1,
            ) {
                Ok(list) => Ok(NodeTree::Object(list)),
                Err(f) => Err(f),
            },
            JsTree::Other(t) => json_to_node(t, Seq::empty(), depth),
        }
    }
}

/// How the first `n` items look.
pub open spec fn node_sees_items(items: Seq<JsTree>, n: nat, depth: nat) -> Result<
    Seq<NodeTree>,
    NodeFault,
>
    decreases items, n,
{
    if n == 0 || n > items.len() {
        Ok(Seq::empty())
    } else {
        match node_sees_items(items, (n - 1) as nat, depth) {
            Err(f) => Err(f),
            Ok(list) => match node_sees(items[n - 1], depth) {
                Ok(item) => Ok(list.push(item)),
                Err(f) => Err(f),
            },
        }
    }
}

/// How the first `n` members look.
pub open spec fn node_sees_members(
    members: Seq<(Seq<char>, JsTree)>,
    n: nat,
    depth: nat,
) -> Result<Seq<(Seq<char>, NodeTree)>, NodeFault>
    decreases members, n,
{
    if n == 0 || n > members.len() {
        Ok(Seq::empty())
    } else {
        match node_sees_members(members, (n - 1) as nat, depth) {
            Err(f) => Err(f),
            Ok(list) => match node_sees(members[n - 1].1, depth) {
                Ok(value) => if members[n - 1].0.contains('\0') {
                    Err(NodeFault::NullByteInKey)
                } else {
                    Ok(list.push((members[n - 1].0, value)))
                },
                Err(f) => Err(f),
            },
        }
    }
}

/// Where nothing reads as a placeholder, blobs make no difference in Node.js.
proof fn lemma_plain_json_node(t: JsonTree, blobs: Seq<Seq<u8>>, depth: nat)
    requires
        plain_json(t),
    ensures
        json_to_node(t, blobs, depth) == json_to_node(t, Seq::empty(), depth),
    decreases t, 0nat,
{
    if depth <= MAX_JSON_DEPTH {
        match t {
            JsonTree::Array(items) => lemma_plain_node_items(
                items,
                items.len(),
                blobs,
                depth + 1,
            ),
            JsonTree::Object(members) => lemma_plain_node_members(
                members,
                members.len(),
                blobs,
                depth + 1,
            ),
            _ => {},
        }
    }
}

proof fn lemma_plain_node_items(items: Seq<JsonTree>, n: nat, blobs: Seq<Seq<u8>>, depth: nat)
    requires
        forall|i: int| 0 <= i < items.len() ==> plain_json(#[trigger] items[i]),
    ensures
        node_items(items, n, blobs, depth) == node_items(items, n, Seq::empty(), depth),
    decreases items, n,
{
    if 0 < n <= items.len() {
        lemma_plain_node_items(items, (n - 1) as nat, blobs, depth);
        lemma_plain_json_node(items[n - 1], blobs, depth);
    }
}

proof fn lemma_plain_node_members(
    members: Seq<(Seq<char>, JsonTree)>,
    n: nat,
    blobs: Seq<Seq<u8>>,
    depth: nat,
)
    requires
        forall|i: int| 0 <= i < members.len() ==> plain_json(#[trigger] members[i].1),
    ensures
        node_members(members, n, blobs, depth) == node_members(members, n, Seq::empty(), depth),
    decreases members, n,
{
    if 0 < n <= members.len() {
        lemma_plain_node_members(members, (n - 1) as nat, blobs, depth);
        lemma_plain_json_node(members[n - 1].1, blobs, depth);
    }
}

/// The JSON that carries a guest value, resolved against its blobs, is that value as Node.js sees
/// it: byte arrays arrive with their bytes.
pub proof fn law_bytes_reach_node(v: JsTree, t: JsonTree, blobs: Seq<Seq<u8>>, depth: nat)
    requires
        carries(v, t, blobs),
        reserved_key_unused(v),
        blobs.len() <= usize::MAX,
    ensures
        json_to_node(t, blobs, depth) == node_sees(v, depth),
    decreases v, 0nat,
{
    if depth <= MAX_JSON_DEPTH {
        match v {
            JsTree::Uint8Array(bytes) => {
                let i = choose|i: u64|
                    i < blobs.len() && blobs[i as int] == bytes && t == #[trigger] placeholder_tree(
                        i,
                    );
                let members = t->Object_0;
                assert(members[0] == (
                    PLACEHOLDER_BIN@,
                    JsonTree::Number(JsonNumber::PosInt(i)),
                ));
                assert(placeholder_index(members) == Some(i));
            },
            JsTree::Array(items) => {
                lemma_node_items_reach(items, t->Array_0, items.len(), blobs, depth + 1);
            },
            JsTree::Object(members) => {
                let list = t->Object_0;
                assert(placeholder_index(list) is None) by {
                    if list.len() == 1 && list[0].0 == PLACEHOLDER_BIN@ {
                        assert(members[0].0 == list[0].0);
                        lemma_not_index(members[0].1, list[0].1, blobs);
                    }
                }
                lemma_node_members_reach(members, list, members.len(), blobs, depth + 1);
            },
            JsTree::Other(json) => lemma_plain_json_node(json, blobs, depth),
            _ => {},
        }
    }
}

proof fn lemma_node_items_reach(
    items: Seq<JsTree>,
    list: Seq<JsonTree>,
    n: nat,
    blobs: Seq<Seq<u8>>,
    depth: nat,
)
    requires
        n <= items.len(),
        list.len() == items.len(),
        forall|i: int| 0 <= i < items.len() ==> carries(#[trigger] items[i], list[i], blobs),
        forall|i: int| 0 <= i < items.len() ==> reserved_key_unused(#[trigger] items[i]),
        blobs.len() <= usize::MAX,
    ensures
        node_items(list, n, blobs, depth) == node_sees_items(items, n, depth),
    decreases items, n,
{
    if n > 0 {
        lemma_node_items_reach(items, list, (n - 1) as nat, blobs, depth);
        law_bytes_reach_node(items[n - 1], list[n - 1], blobs, depth);
    }
}

proof fn lemma_node_members_reach(
    members: Seq<(Seq<char>, JsTree)>,
    list: Seq<(Seq<char>, JsonTree)>,
    n: nat,
    blobs: Seq<Seq<u8>>,
    depth: nat,
)
    requires
        n <= members.len(),
        list.len() == members.len(),
        forall|i: int|
            0 <= i < members.len() ==> (#[trigger] members[i]).0 == list[i].0 && carries(
                members[i].1,
                list[i].1,
                blobs,
            ),
        forall|i: int| 0 <= i < members.len() ==> reserved_key_unused(#[trigger] members[i].1),
        blobs.len() <= usize::MAX,
    ensures
        node_members(list, n, blobs, depth) == node_sees_members(members, n, depth),
    decreases members, n,
{
    if n > 0 {
        lemma_node_members_reach(members, list, (n - 1) as nat, blobs, depth);
        let member = members[n - 1];
        assert(member.0 == list[n - 1].0);
        law_bytes_reach_node(member.1, list[n - 1].1, blobs, depth);
    }
}

} // verus!
