//! Values between host functions written for Node.js and guest code.

use crate::common::{contents, FnReturn, ReturnContents, MAX_JSON_DEPTH};
use crate::json::{
    as_placeholder, lemma_array_tree, lemma_object_tree, member_trees, placeholder_index, trees,
    Json, JsonTree,
};
use crate::sandbox::error::{ErrorContents, HyperlightError};
use crate::sandbox::json_text::{json_rendered, render_json};
use crate::text::{contains_char, decimal, joined, push_decimal, with_number};
use std::sync::Arc;
use vstd::prelude::*;
use vstd::slice::slice_to_vec;
use vstd::string::*;

verus! {

/// A value to be made in Node.js.
#[derive(Debug)]
pub enum NodeValue {
    /// What the JSON stands for.
    Plain(Json),
    /// A `Buffer` with these bytes.
    Buffer(Vec<u8>),
    /// An array.
    Array(Vec<NodeValue>),
    /// An object: its properties, in the order in which they are set.
    Object(Vec<(String, NodeValue)>),
}

/// What a [`NodeValue`] stands for.
#[verifier::ext_equal]
pub enum NodeTree {
    /// What the JSON stands for.
    Plain(JsonTree),
    /// A `Buffer`.
    Buffer(Seq<u8>),
    /// An array.
    Array(Seq<NodeTree>),
    /// An object.
    Object(Seq<(Seq<char>, NodeTree)>),
}

impl NodeValue {
    /// The tree.
    pub open spec fn tree(self) -> NodeTree
        decreases self,
    {
        match self {
            NodeValue::Plain(json) => NodeTree::Plain(json@),
            NodeValue::Buffer(bytes) => NodeTree::Buffer(bytes@),
            NodeValue::Array(items) => NodeTree::Array(
                Seq::new(
                    items@.len(),
                    |i: int|
                        if 0 <= i < items@.len() {
                            items@[i].tree()
                        } else {
                            NodeTree::Buffer(Seq::empty())
                        },
                ),
            ),
            NodeValue::Object(members) => NodeTree::Object(
                Seq::new(
                    members@.len(),
                    |i: int|
                        if 0 <= i < members@.len() {
                            (members@[i].0@, members@[i].1.tree())
                        } else {
                            (Seq::empty(), NodeTree::Buffer(Seq::empty()))
                        },
                ),
            ),
        }
    }
}

impl View for NodeValue {
    type V = NodeTree;

    open spec fn view(&self) -> NodeTree {
        self.tree()
    }
}

/// The trees of several values.
pub open spec fn node_trees(items: Seq<NodeValue>) -> Seq<NodeTree> {
    Seq::new(items.len(), |i: int| items[i]@)
}

/// The members of an object, as trees.
pub open spec fn node_member_trees(members: Seq<(String, NodeValue)>) -> Seq<
    (Seq<char>, NodeTree),
> {
    Seq::new(members.len(), |i: int| (members[i].0@, members[i].1@))
}

broadcast proof fn lemma_node_array_tree(items: Vec<NodeValue>)
    ensures
        #[trigger] NodeValue::Array(items).tree() == NodeTree::Array(node_trees(items@)),
{
    assert(NodeValue::Array(items).tree()->Array_0 =~= node_trees(items@));
}

broadcast proof fn lemma_node_object_tree(members: Vec<(String, NodeValue)>)
    ensures
        #[trigger] NodeValue::Object(members).tree() == NodeTree::Object(
            node_member_trees(members@),
        ),
{
    assert(NodeValue::Object(members).tree()->Object_0 =~= node_member_trees(members@));
}

/// Why an argument cannot be made in Node.js.
#[derive(Debug, Clone, Copy, PartialEq, Eq, Structural)]
pub enum NodeFault {
    /// It nests deeper than [`MAX_JSON_DEPTH`].
    TooDeep,
    /// A placeholder refers to a blob that is not there.
    NoSuchBlob {
        /// The blob that is asked for.
        index: usize,
        /// How many blobs there are.
        blobs: usize,
    },
    /// A key has a null byte in it.
    NullByteInKey,
    /// An array is longer than arrays can be.
    ArrayTooLong {
        /// Its length.
        len: usize,
    },
}

/// The message of a fault.
pub open spec fn node_fault_text(f: NodeFault) -> Seq<char> {
    match f {
        NodeFault::TooDeep => "JSON nesting depth exceeds maximum ("@ + decimal(
            MAX_JSON_DEPTH as nat,
        ) + ")"@,
        NodeFault::NoSuchBlob { index, blobs } => "Binary placeholder index "@ + decimal(
            index as nat,
        ) + " out of bounds (have "@ + decimal(blobs as nat) + " blobs)"@,
        NodeFault::NullByteInKey => "Object key contains null byte"@,
        NodeFault::ArrayTooLong { len } => "Array length "@ + decimal(len as nat)
            + " exceeds u32::MAX"@,
    }
}

impl NodeFault {
    /// The message of the fault.
    pub fn to_string(&self) -> (s: String)
        ensures
            s@ == node_fault_text(*self),
    {
        match self {
            NodeFault::TooDeep => with_number(
                "JSON nesting depth exceeds maximum (",
                MAX_JSON_DEPTH as u64,
                ")",
            ),
            NodeFault::NoSuchBlob { index, blobs } => {
                let mut text = with_number(
                    "Binary placeholder index ",
                    *index as u64,
                    " out of bounds (have ",
                );
                push_decimal(&mut text, *blobs as u64);
                text.append(" blobs)");
                text
            },
            NodeFault::NullByteInKey => "Object key contains null byte".to_owned(),
            NodeFault::ArrayTooLong { len } => with_number(
                "Array length ",
                *len as u64,
                " exceeds u32::MAX",
            ),
        }
    }
}

/// The Node.js value of a JSON tree: an object that is a placeholder is replaced by a `Buffer`
/// with the blob that it refers to, or refused if there is no such blob.
pub open spec fn json_to_node(t: JsonTree, blobs: Seq<Seq<u8>>, depth: nat) -> Result<
    NodeTree,
    NodeFault,
>
    decreases t, 0nat,
{
    if depth > MAX_JSON_DEPTH {
        Err(NodeFault::TooDeep)
    } else {
        match t {
            JsonTree::Object(members) => match placeholder_index(members) {
                Some(n) => {
                    let index = n as usize;
                    if index < blobs.len() {
                        Ok(NodeTree::Buffer(blobs[index as int]))
                    } else {
                        Err(NodeFault::NoSuchBlob { index, blobs: blobs.len() as usize })
                    }
                },
                None => match node_members(members, members.len(), blobs, depth + 1) {
                    Ok(list) => Ok(NodeTree::Object(list)),
                    Err(f) => Err(f),
                },
            },
            JsonTree::Array(items) => if items.len() > u32::MAX {
                Err(NodeFault::ArrayTooLong { len: items.len() as usize })
            } else {
                match node_items(items, items.len(), blobs, depth + 1) {
                    Ok(list) => Ok(NodeTree::Array(list)),
                    Err(f) => Err(f),
                }
            },
            other => Ok(NodeTree::Plain(other)),
        }
    }
}

/// The Node.js values of the first `n` items.
pub open spec fn node_items(
    items: Seq<JsonTree>,
    n: nat,
    blobs: Seq<Seq<u8>>,
    depth: nat,
) -> Result<Seq<NodeTree>, NodeFault>
    decreases items, n,
{
    if n == 0 || n > items.len() {
        Ok(Seq::empty())
    } else {
        match node_items(items, (n - 1) as nat, blobs, depth) {
            Err(f) => Err(f),
            Ok(list) => match json_to_node(items[n - 1], blobs, depth) {
                Ok(item) => Ok(list.push(item)),
                Err(f) => Err(f),
            },
        }
    }
}

/// The Node.js values of the first `n` members. The value of a member is looked at before its key.
pub open spec fn node_members(
    members: Seq<(Seq<char>, JsonTree)>,
    n: nat,
    blobs: Seq<Seq<u8>>,
    depth: nat,
) -> Result<Seq<(Seq<char>, NodeTree)>, NodeFault>
    decreases members, n,
{
    if n == 0 || n > members.len() {
        Ok(Seq::empty())
    } else {
        match node_members(members, (n - 1) as nat, blobs, depth) {
            Err(f) => Err(f),
            Ok(list) => match json_to_node(members[n - 1].1, blobs, depth) {
                Ok(value) => if members[n - 1].0.contains('\0') {
                    Err(NodeFault::NullByteInKey)
                } else {
                    Ok(list.push((members[n - 1].0, value)))
                },
                Err(f) => Err(f),
            },
        }
    }
}

proof fn lemma_node_items_fault(
    items: Seq<JsonTree>,
    m: nat,
    n: nat,
    blobs: Seq<Seq<u8>>,
    depth: nat,
)
    requires
        m <= n <= items.len(),
        node_items(items, m, blobs, depth) is Err,
    ensures
        node_items(items, n, blobs, depth) == node_items(items, m, blobs, depth),
    decreases n,
{
    if m < n {
        lemma_node_items_fault(items, m, (n - 1) as nat, blobs, depth);
    }
}

proof fn lemma_node_members_fault(
    members: Seq<(Seq<char>, JsonTree)>,
    m: nat,
    n: nat,
    blobs: Seq<Seq<u8>>,
    depth: nat,
)
    requires
        m <= n <= members.len(),
        node_members(members, m, blobs, depth) is Err,
    ensures
        node_members(members, n, blobs, depth) == node_members(members, m, blobs, depth),
    decreases n,
{
    if m < n {
        lemma_node_members_fault(members, m, (n - 1) as nat, blobs, depth);
    }
}

/// Converts a JSON value to a Node.js value, replacing `{"__bin__": N}` by a `Buffer` with blob
/// `N`. `depth` is how deep the value stands in what is being converted.
pub fn json_to_napi_with_buffers(value: Json, blobs: &Vec<Vec<u8>>, depth: usize) -> (r: Result<
    NodeValue,
    NodeFault,
>)
    ensures
        json_to_node(value@, contents(blobs@), depth as nat) == (match r {
            Ok(v) => Ok::<NodeTree, NodeFault>(v@),
            Err(f) => Err(f),
        }),
    decreases (if depth <= MAX_JSON_DEPTH { 1 + MAX_JSON_DEPTH - depth } else { 0 }),
{
    broadcast use {
        lemma_node_array_tree,
        lemma_node_object_tree,
        lemma_array_tree,
        lemma_object_tree,
    };

    if depth > MAX_JSON_DEPTH {
        return Err(NodeFault::TooDeep);
    }
    let ghost bytes = contents(blobs@);
    match value {
        Json::Object(members) => {
            let ghost all = member_trees(members@);
            match as_placeholder(&members) {
                Some(n) => {
                    let index: usize = n as usize;
                    if index < blobs.len() {
                        return Ok(NodeValue::Buffer(slice_to_vec(blobs[index].as_slice())));
                    }
                    return Err(NodeFault::NoSuchBlob { index, blobs: blobs.len() });
                },
                None => {},
            }
            let mut list: Vec<(String, NodeValue)> = Vec::new();
            assert(node_member_trees(list@) =~= Seq::<(Seq<char>, NodeTree)>::empty());
            for member in it: members
                invariant
                    all == member_trees(it.seq()),
                    value@ == JsonTree::Object(all),
                    placeholder_index(all) is None,
                    bytes == contents(blobs@),
                    depth <= MAX_JSON_DEPTH,
                    node_members(all, it.index() as nat, bytes, (depth + 1) as nat) == Ok::<
                        Seq<(Seq<char>, NodeTree)>,
                        NodeFault,
                    >(node_member_trees(list@)),
            {
                let ghost k = it.index();
                assert(all[k] == (member.0@, member.1@));
                let (key, inner) = member;
                match json_to_napi_with_buffers(inner, blobs, depth + 1) {
                    Ok(v) => {
                        if contains_char(key.as_str(), '\0') {
                            proof {
                                lemma_node_members_fault(
                                    all,
                                    (k + 1) as nat,
                                    all.len(),
                                    bytes,
                                    (depth + 1) as nat,
                                );
                            }
                            return Err(NodeFault::NullByteInKey);
                        }
                        let ghost before = node_member_trees(list@);
                        list.push((key, v));
                        assert(node_member_trees(list@) =~= before.push((key@, v@)));
                    },
                    Err(f) => {
                        proof {
                            lemma_node_members_fault(
                                all,
                                (k + 1) as nat,
                                all.len(),
                                bytes,
                                (depth + 1) as nat,
                            );
                        }
                        return Err(f);
                    },
                }
            }
            Ok(NodeValue::Object(list))
        },
        Json::Array(items) => {
            let ghost all = trees(items@);
            if items.len() > u32::MAX as usize {
                return Err(NodeFault::ArrayTooLong { len: items.len() });
            }
            let mut list: Vec<NodeValue> = Vec::new();
            assert(node_trees(list@) =~= Seq::<NodeTree>::empty());
            for item in it: items
                invariant
                    all == trees(it.seq()),
                    all.len() <= u32::MAX,
                    value@ == JsonTree::Array(all),
                    bytes == contents(blobs@),
                    depth <= MAX_JSON_DEPTH,
                    node_items(all, it.index() as nat, bytes, (depth + 1) as nat) == Ok::<
                        Seq<NodeTree>,
                        NodeFault,
                    >(node_trees(list@)),
            {
                let ghost k = it.index();
                assert(all[k] == item@);
                match json_to_napi_with_buffers(item, blobs, depth + 1) {
                    Ok(v) => {
                        let ghost before = node_trees(list@);
                        list.push(v);
                        assert(node_trees(list@) =~= before.push(v@));
                    },
                    Err(f) => {
                        proof {
                            lemma_node_items_fault(
                                all,
                                (k + 1) as nat,
                                all.len(),
                                bytes,
                                (depth + 1) as nat,
                            );
                        }
                        return Err(f);
                    },
                }
            }
            Ok(NodeValue::Array(list))
        },
        other => Ok(NodeValue::Plain(other)),
    }
}

/// An argument of a host function, with the blobs that its placeholders refer to.
#[derive(Debug)]
pub struct JsArg {
    value: Json,
    blobs: Arc<Vec<Vec<u8>>>,
}

impl JsArg {
    /// The argument.
    pub closed spec fn argument(self) -> JsonTree {
        self.value@
    }

    /// The blobs.
    pub closed spec fn bytes(self) -> Seq<Seq<u8>> {
        contents(self.blobs@)
    }

    /// The Node.js value of the argument. Where there are no blobs, it is what its JSON stands
    /// for, placeholders and all.
    pub fn to_node(self) -> (r: Result<NodeValue, NodeFault>)
        ensures
            arg_to_node(self.argument(), self.bytes()) == (match r {
                Ok(v) => Ok::<NodeTree, NodeFault>(v@),
                Err(f) => Err(f),
            }),
    {
        if self.blobs.len() == 0 {
            return Ok(NodeValue::Plain(self.value));
        }
        json_to_napi_with_buffers(self.value, &*self.blobs, 0)
    }
}

/// The Node.js value of an argument.
pub open spec fn arg_to_node(t: JsonTree, blobs: Seq<Seq<u8>>) -> Result<NodeTree, NodeFault> {
    if blobs.len() == 0 {
        Ok(NodeTree::Plain(t))
    } else {
        json_to_node(t, blobs, 0)
    }
}

/// The single arguments of a call: the items of an array, or one argument that is no array.
pub open spec fn spread(args: JsonTree) -> Seq<JsonTree> {
    match args {
        JsonTree::Array(items) => items,
        other => seq![other],
    }
}

/// The arguments of a call, one by one, each with the blobs.
pub fn spread_args(args: Json, blobs: Vec<Vec<u8>>) -> (list: Vec<JsArg>)
    ensures
        list@.len() == spread(args@).len(),
        forall|i: int|
            0 <= i < list@.len() ==> (#[trigger] list@[i]).argument() == spread(args@)[i]
                && list@[i].bytes() == contents(blobs@),
{
    broadcast use {lemma_array_tree, lemma_object_tree};

    let shared = Arc::new(blobs);
    let mut list: Vec<JsArg> = Vec::new();
    match args {
        Json::Array(items) => {
            for item in it: items
                invariant
                    args@ == JsonTree::Array(trees(it.seq())),
                    *shared == blobs,
                    list@.len() == it.index(),
                    forall|i: int|
                        0 <= i < list@.len() ==> (#[trigger] list@[i]).argument() == it.seq()[i]@
                            && list@[i].bytes() == contents(blobs@),
            {
                list.push(JsArg { value: item, blobs: shared.clone() });
            }
        },
        other => {
            list.push(JsArg { value: other, blobs: shared });
        },
    }
    list
}

// ── What host functions give back ────────────────────────────────────

/// What a host function gave back.
#[derive(Debug)]
pub enum JsReturn {
    /// A value with a JSON form.
    Value(serde_json::Value),
    /// The bytes of a `Buffer`.
    Buffer(Vec<u8>),
}

/// How the call of a host function went.
#[derive(Debug)]
pub enum CallbackEvent {
    /// It was not queued. The status says why.
    NotQueued(String),
    /// Nobody is there to answer it.
    ChannelClosed,
    /// It threw, or its promise was rejected. The text says why.
    Failed(String),
    /// It gave back a value, or nothing.
    Returned(Option<JsReturn>),
}

/// What the call of a host function gives to the guest.
pub fn callback_return(event: CallbackEvent) -> (r: Result<FnReturn, HyperlightError>)
    ensures
        match event {
            CallbackEvent::NotQueued(status) => r matches Err(e) && e@ == ErrorContents::Error(
                "Host function call failed: "@ + status@,
            ),
            CallbackEvent::ChannelClosed => r matches Err(e) && e@ == ErrorContents::Error(
                "Channel closed"@,
            ),
            CallbackEvent::Failed(text) => r matches Err(e) && e@ == ErrorContents::Error(text@),
            CallbackEvent::Returned(None) => r matches Ok(ret) && ret@ == ReturnContents::Json(
                "null"@,
            ),
            CallbackEvent::Returned(Some(JsReturn::Buffer(bytes))) => r matches Ok(ret) && ret@
                == ReturnContents::Binary(bytes@),
            CallbackEvent::Returned(Some(JsReturn::Value(value))) => match json_rendered(value) {
                Ok(text) => r matches Ok(ret) && ret@ == ReturnContents::Json(text),
                Err(f) => r matches Err(e) && e@ == ErrorContents::JsonConversionFailure(f),
            },
        },
{
    match event {
        CallbackEvent::NotQueued(status) => Err(
            HyperlightError::Error(joined("Host function call failed: ", status.as_str())),
        ),
        CallbackEvent::ChannelClosed => Err(HyperlightError::Error("Channel closed".to_owned())),
        CallbackEvent::Failed(text) => Err(HyperlightError::Error(text)),
        CallbackEvent::Returned(None) => Ok(FnReturn::Json("null".to_owned())),
        CallbackEvent::Returned(Some(JsReturn::Buffer(bytes))) => Ok(FnReturn::Binary(bytes)),
        CallbackEvent::Returned(Some(JsReturn::Value(value))) => match render_json(&value) {
            Ok(text) => Ok(FnReturn::Json(text)),
            Err(e) => Err(HyperlightError::JsonConversionFailure(e)),
        },
    }
}

/// Whether a value is a `Buffer`, or why that cannot be told. `checked` is what the engine
/// answered, if it did.
pub fn is_buffer(checked: Option<bool>) -> (r: Result<bool, &'static str>)
    ensures
        match checked {
            Some(b) => r == Ok::<bool, &'static str>(b),
            None => r matches Err(msg) && msg@ == "Failed to check buffer type"@,
        },
{
    match checked {
        Some(b) => Ok(b),
        None => Err("Failed to check buffer type"),
    }
}

/// How many bytes to copy out of a `Buffer`, or why they cannot be had. `info` is its length, and
/// whether it lacks its bytes, if the engine told them. An empty buffer needs no bytes.
pub fn bytes_to_copy(info: Option<(usize, bool)>) -> (r: Result<usize, &'static str>)
    ensures
        match info {
            None => r matches Err(msg) && msg@ == "Failed to get buffer info"@,
            Some((len, missing)) => if len > 0 && missing {
                r matches Err(msg) && msg@
                    == "Buffer has null data pointer with non-zero length - backing store may have been garbage collected"@
            } else {
                r == Ok::<usize, &'static str>(len)
            },
        },
{
    match info {
        None => Err("Failed to get buffer info"),
        Some((len, missing)) => if len > 0 && missing {
            Err(
                "Buffer has null data pointer with non-zero length - backing store may have been garbage collected",
            )
        } else {
            Ok(len)
        },
    }
}

} // verus!
