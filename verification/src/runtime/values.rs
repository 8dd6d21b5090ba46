//! Values on their way between guest JavaScript and the host.
//!
//! Going out, byte arrays are taken out of the arguments into a list of blobs, and a
//! `{"__bin__": N}` placeholder is left in their place. Coming back, placeholders are replaced by
//! the blobs they refer to.

use crate::common::{contents, optional_contents, MAX_JSON_DEPTH, PLACEHOLDER_BIN};
use crate::double::{as_whole_i64, finite, is_finite, whole_i64};
use crate::json::{
    as_placeholder, lemma_array_tree, lemma_object_tree, member_trees, placeholder_index,
    placeholder_tree, put_member, trees, with_member, Json, JsonNumber, JsonTree,
};
use crate::text::{decimal, push_decimal, with_number};
use vstd::prelude::*;
use vstd::slice::slice_to_vec;
use vstd::string::*;

verus! {

/// A JavaScript value as guest code passes it to a host function.
#[derive(Debug)]
pub enum JsValue {
    /// `undefined`
    Undefined,
    /// `null`
    Null,
    /// A boolean.
    Bool(bool),
    /// A number that the engine stores as an integer.
    Int(i32),
    /// Any other number: the bits of the double.
    Float(u64),
    /// A string.
    String(String),
    /// The bytes of a `Uint8Array`.
    Uint8Array(Vec<u8>),
    /// An array.
    Array(Vec<JsValue>),
    /// An object: its own enumerable properties, in order.
    Object(Vec<(String, JsValue)>),
    /// Anything else: what `JSON.stringify` makes of it (`null` if it makes nothing of it).
    Other(Json),
    /// A value that the engine failed to read.
    Unreadable,
}

/// What a [`JsValue`] stands for.
#[verifier::ext_equal]
pub enum JsTree {
    /// `undefined`
    Undefined,
    /// `null`
    Null,
    /// A boolean.
    Bool(bool),
    /// A number that the engine stores as an integer.
    Int(i32),
    /// Any other number.
    Float(u64),
    /// A string.
    String(Seq<char>),
    /// The bytes of a `Uint8Array`.
    Uint8Array(Seq<u8>),
    /// An array.
    Array(Seq<JsTree>),
    /// An object.
    Object(Seq<(Seq<char>, JsTree)>),
    /// Anything else, as JSON.
    Other(JsonTree),
    /// A value that the engine failed to read.
    Unreadable,
}

impl JsValue {
    /// The tree.
    pub open spec fn tree(self) -> JsTree
        decreases self,
    {
        match self {
            JsValue::Undefined => JsTree::Undefined,
            JsValue::Null => JsTree::Null,
            JsValue::Bool(b) => JsTree::Bool(b),
            JsValue::Int(n) => JsTree::Int(n),
            JsValue::Float(bits) => JsTree::Float(bits),
            JsValue::String(s) => JsTree::String(s@),
            JsValue::Uint8Array(bytes) => JsTree::Uint8Array(bytes@),
            JsValue::Array(items) => JsTree::Array(
                Seq::new(
                    items@.len(),
                    |i: int|
                        if 0 <= i < items@.len() {
                            items@[i].tree()
                        } else {
                            JsTree::Null
                        },
                ),
            ),
            JsValue::Object(members) => JsTree::Object(
                Seq::new(
                    members@.len(),
                    |i: int|
                        if 0 <= i < members@.len() {
                            (members@[i].0@, members@[i].1.tree())
                        } else {
                            (Seq::empty(), JsTree::Null)
                        },
                ),
            ),
            JsValue::Other(json) => JsTree::Other(json@),
            JsValue::Unreadable => JsTree::Unreadable,
        }
    }
}

impl View for JsValue {
    type V = JsTree;

    open spec fn view(&self) -> JsTree {
        self.tree()
    }
}

/// The trees of several values.
pub open spec fn js_trees(items: Seq<JsValue>) -> Seq<JsTree> {
    Seq::new(items.len(), |i: int| items[i]@)
}

/// The members of an object, as trees.
pub open spec fn js_member_trees(members: Seq<(String, JsValue)>) -> Seq<(Seq<char>, JsTree)> {
    Seq::new(members.len(), |i: int| (members[i].0@, members[i].1@))
}

broadcast proof fn lemma_js_array_tree(items: Vec<JsValue>)
    ensures
        #[trigger] JsValue::Array(items).tree() == JsTree::Array(js_trees(items@)),
{
    assert(JsValue::Array(items).tree()->Array_0 =~= js_trees(items@));
}

broadcast proof fn lemma_js_object_tree(members: Vec<(String, JsValue)>)
    ensures
        #[trigger] JsValue::Object(members).tree() == JsTree::Object(js_member_trees(members@)),
{
    assert(JsValue::Object(members).tree()->Object_0 =~= js_member_trees(members@));
}

/// Why a value cannot be converted.
#[derive(Debug, Clone, Copy, PartialEq, Eq, Structural)]
pub enum ValueFault {
    /// It nests deeper than [`MAX_JSON_DEPTH`].
    TooDeep,
    /// The engine failed to read a part of it.
    Unreadable,
    /// A placeholder refers to a blob that is not there.
    NoSuchBlob {
        /// The blob that is asked for.
        index: usize,
        /// How many blobs there are.
        blobs: usize,
    },
}

/// The JSON of one value and the blobs collected so far, each byte array having been appended to
/// `blobs` and replaced by a placeholder. A value that could not be read is reported as such at
/// any depth: reading it comes before looking at it.
pub open spec fn js_to_json(v: JsTree, blobs: Seq<Seq<u8>>, depth: nat) -> (
    Result<JsonTree, ValueFault>,
    Seq<Seq<u8>>,
)
    decreases v, 0nat,
{
    if v is Unreadable {
        (Err(ValueFault::Unreadable), blobs)
    } else if depth > MAX_JSON_DEPTH {
        (Err(ValueFault::TooDeep), blobs)
    } else {
        match v {
            JsTree::Uint8Array(bytes) => (
                Ok(placeholder_tree(blobs.len() as u64)),
                blobs.push(bytes),
            ),
            JsTree::Undefined | JsTree::Null => (Ok(JsonTree::Null), blobs),
            JsTree::Bool(b) => (Ok(JsonTree::Bool(b)), blobs),
            JsTree::Int(n) => (Ok(JsonTree::Number(JsonNumber::of_int(n as i64))), blobs),
            JsTree::Float(bits) => (Ok(float_to_json(bits)), blobs),
            JsTree::String(s) => (Ok(JsonTree::String(s)), blobs),
            JsTree::Array(items) => match js_items(items, items.len(), blobs, depth + 1) {
                (Ok(list), after) => (Ok(JsonTree::Array(list)), after),
                (Err(f), after) => (Err(f), after),
            },
            JsTree::Object(members) => match js_members(
                members,
                members.len(),
                blobs,
                depth + 1,
            ) {
                (Ok(list), after) => (Ok(JsonTree::Object(list)), after),
                (Err(f), after) => (Err(f), after),
            },
            JsTree::Other(json) => (Ok(json), blobs),
            JsTree::Unreadable => (Err(ValueFault::Unreadable), blobs),
        }
    }
}

/// A double as JSON: a whole number that fits in an `i64` as an integer (`42.0` is `42`), any
/// other finite number as it is, and infinities and NaN as `null`.
pub open spec fn float_to_json(bits: u64) -> JsonTree {
    if !is_finite(bits) {
        JsonTree::Null
    } else {
        match whole_i64(bits) {
            Some(n) => JsonTree::Number(JsonNumber::of_int(n)),
            None => JsonTree::Number(JsonNumber::Float(bits)),
        }
    }
}

/// The JSON of the first `n` items, one after another.
pub open spec fn js_items(items: Seq<JsTree>, n: nat, blobs: Seq<Seq<u8>>, depth: nat) -> (
    Result<Seq<JsonTree>, ValueFault>,
    Seq<Seq<u8>>,
)
    decreases items, n,
{
    if n == 0 || n > items.len() {
        (Ok(Seq::empty()), blobs)
    } else {
        match js_items(items, (n - 1) as nat, blobs, depth) {
            (Err(f), after) => (Err(f), after),
            (Ok(list), after) => match js_to_json(items[n - 1], after, depth) {
                (Ok(item), last) => (Ok(list.push(item)), last),
                (Err(f), last) => (Err(f), last),
            },
        }
    }
}

/// The JSON of the first `n` members, one after another. Of two members with one key the later
/// one counts.
pub open spec fn js_members(
    members: Seq<(Seq<char>, JsTree)>,
    n: nat,
    blobs: Seq<Seq<u8>>,
    depth: nat,
) -> (Result<Seq<(Seq<char>, JsonTree)>, ValueFault>, Seq<Seq<u8>>)
    decreases members, n,
{
    if n == 0 || n > members.len() {
        (Ok(Seq::empty()), blobs)
    } else {
        match js_members(members, (n - 1) as nat, blobs, depth) {
            (Err(f), after) => (Err(f), after),
            (Ok(list), after) => match js_to_json(members[n - 1].1, after, depth) {
                (Ok(value), last) => (Ok(with_member(list, members[n - 1].0, value)), last),
                (Err(f), last) => (Err(f), last),
            },
        }
    }
}

/// A failure at one item is the failure of all.
proof fn lemma_js_items_fault(
    items: Seq<JsTree>,
    m: nat,
    n: nat,
    blobs: Seq<Seq<u8>>,
    depth: nat,
)
    requires
        m <= n <= items.len(),
        js_items(items, m, blobs, depth).0 is Err,
    ensures
        js_items(items, n, blobs, depth) == js_items(items, m, blobs, depth),
    decreases n,
{
    if m < n {
        lemma_js_items_fault(items, m, (n - 1) as nat, blobs, depth);
    }
}

proof fn lemma_js_members_fault(
    members: Seq<(Seq<char>, JsTree)>,
    m: nat,
    n: nat,
    blobs: Seq<Seq<u8>>,
    depth: nat,
)
    requires
        m <= n <= members.len(),
        js_members(members, m, blobs, depth).0 is Err,
    ensures
        js_members(members, n, blobs, depth) == js_members(members, m, blobs, depth),
    decreases n,
{
    if m < n {
        lemma_js_members_fault(members, m, (n - 1) as nat, blobs, depth);
    }
}

/// A double as JSON.
fn float_json(bits: u64) -> (json: Json)
    ensures
        json@ == float_to_json(bits),
{
    if finite(bits) {
        match as_whole_i64(bits) {
            Some(n) => Json::Number(JsonNumber::from_i64(n)),
            None => Json::Number(JsonNumber::Float(bits)),
        }
    } else {
        Json::Null
    }
}

/// Converts one value to JSON, taking byte arrays out into `binaries` and leaving placeholders in
/// their place. `depth` is how deep the value stands in what is being converted.
pub fn value_to_json_with_binaries(
    value: JsValue,
    binaries: &mut Vec<Vec<u8>>,
    depth: usize,
) -> (r: Result<Json, ValueFault>)
    ensures
        js_to_json(value@, contents(old(binaries)@), depth as nat) == (
            (match r {
                Ok(json) => Ok(json@),
                Err(f) => Err::<JsonTree, ValueFault>(f),
            }),
            contents(final(binaries)@),
        ),
    decreases (if depth <= MAX_JSON_DEPTH { 1 + MAX_JSON_DEPTH - depth } else { 0 }),
{
    broadcast use {lemma_js_array_tree, lemma_js_object_tree, lemma_array_tree, lemma_object_tree};

    if let JsValue::Unreadable = value {
        return Err(ValueFault::Unreadable);
    }
    if depth > MAX_JSON_DEPTH {
        return Err(ValueFault::TooDeep);
    }
    let ghost blobs = contents(binaries@);
    match value {
        JsValue::Uint8Array(bytes) => {
            let index: u64 = binaries.len() as u64;
            binaries.push(bytes);
            assert(contents(binaries@) =~= blobs.push(bytes@));
            let mut members: Vec<(String, Json)> = Vec::new();
            members.push((PLACEHOLDER_BIN.to_owned(), Json::Number(JsonNumber::PosInt(index))));
            assert(member_trees(members@) =~= seq![
                (PLACEHOLDER_BIN@, JsonTree::Number(JsonNumber::PosInt(index))),
            ]);
            Ok(Json::Object(members))
        },
        JsValue::Undefined | JsValue::Null => Ok(Json::Null),
        JsValue::Bool(b) => Ok(Json::Bool(b)),
        JsValue::Int(n) => Ok(Json::Number(JsonNumber::from_i64(n as i64))),
        JsValue::Float(bits) => Ok(float_json(bits)),
        JsValue::String(s) => Ok(Json::String(s)),
        JsValue::Array(items) => {
            let ghost all = js_trees(items@);
            let mut list: Vec<Json> = Vec::new();
            assert(trees(list@) =~= Seq::<JsonTree>::empty());
            for item in it: items
                invariant
                    all == js_trees(it.seq()),
                    value@ == JsTree::Array(all),
                    blobs == contents(old(binaries)@),
                    depth <= MAX_JSON_DEPTH,
                    js_items(all, it.index() as nat, blobs, (depth + 1) as nat) == (
                        Ok::<Seq<JsonTree>, ValueFault>(trees(list@)),
                        contents(binaries@),
                    ),
            {
                let ghost k = it.index();
                assert(all[k] == item@);
                match value_to_json_with_binaries(item, binaries, depth + 1) {
                    Ok(json) => {
                        let ghost before = trees(list@);
                        list.push(json);
                        assert(trees(list@) =~= before.push(json@));
                    },
                    Err(f) => {
                        proof {
                            lemma_js_items_fault(
                                all,
                                (k + 1) as nat,
                                all.len(),
                                blobs,
                                (depth + 1) as nat,
                            );
                        }
                        return Err(f);
                    },
                }
            }
            Ok(Json::Array(list))
        },
        JsValue::Object(members) => {
            let ghost all = js_member_trees(members@);
            let mut list: Vec<(String, Json)> = Vec::new();
            assert(member_trees(list@) =~= Seq::<(Seq<char>, JsonTree)>::empty());
            for member in it: members
                invariant
                    all == js_member_trees(it.seq()),
                    value@ == JsTree::Object(all),
                    blobs == contents(old(binaries)@),
                    depth <= MAX_JSON_DEPTH,
                    js_members(all, it.index() as nat, blobs, (depth + 1) as nat) == (
                        Ok::<Seq<(Seq<char>, JsonTree)>, ValueFault>(member_trees(list@)),
                        contents(binaries@),
                    ),
            {
                let ghost k = it.index();
                assert(all[k] == (member.0@, member.1@));
                let (key, inner) = member;
                match value_to_json_with_binaries(inner, binaries, depth + 1) {
                    Ok(json) => {
                        put_member(&mut list, key, json);
                    },
                    Err(f) => {
                        proof {
                            lemma_js_members_fault(
                                all,
                                (k + 1) as nat,
                                all.len(),
                                blobs,
                                (depth + 1) as nat,
                            );
                        }
                        return Err(f);
                    },
                }
            }
            Ok(Json::Object(list))
        },
        JsValue::Other(json) => Ok(json),
        JsValue::Unreadable => Err(ValueFault::Unreadable),
    }
}

/// Converts the arguments of a call to JSON, one after another, taking byte arrays out into a list
/// of blobs and leaving placeholders in their place.
pub fn extract_binaries(args: Vec<JsValue>) -> (r: Result<(Vec<Json>, Vec<Vec<u8>>), ValueFault>)
    ensures
        match r {
            Ok((json_args, binaries)) => js_items(js_trees(args@), args@.len(), Seq::empty(), 0)
                == (Ok::<Seq<JsonTree>, ValueFault>(trees(json_args@)), contents(binaries@)),
            Err(f) => js_items(js_trees(args@), args@.len(), Seq::empty(), 0).0 == Err::<
                Seq<JsonTree>,
                ValueFault,
            >(f),
        },
{
    let ghost all = js_trees(args@);
    let mut binaries: Vec<Vec<u8>> = Vec::new();
    let mut json_args: Vec<Json> = Vec::new();
    assert(trees(json_args@) =~= Seq::<JsonTree>::empty());
    assert(contents(binaries@) =~= Seq::<Seq<u8>>::empty());
    for arg in it: args
        invariant
            all == js_trees(it.seq()),
            all == js_trees(args@),
            js_items(all, it.index() as nat, Seq::empty(), 0) == (
                Ok::<Seq<JsonTree>, ValueFault>(trees(json_args@)),
                contents(binaries@),
            ),
    {
        let ghost k = it.index();
        assert(all[k] == arg@);
        match value_to_json_with_binaries(arg, &mut binaries, 0) {
            Ok(json) => {
                let ghost before = trees(json_args@);
                json_args.push(json);
                assert(trees(json_args@) =~= before.push(json@));
            },
            Err(f) => {
                proof {
                    lemma_js_items_fault(all, (k + 1) as nat, all.len(), Seq::empty(), 0);
                }
                return Err(f);
            },
        }
    }
    Ok((json_args, binaries))
}

/// The message of a fault. For a value that could not be read there is none: the engine's own
/// error is reported.
pub open spec fn value_fault_text(f: ValueFault) -> Option<Seq<char>> {
    match f {
        ValueFault::TooDeep => Some(
            "JSON nesting depth exceeds maximum ("@ + decimal(MAX_JSON_DEPTH as nat) + ")"@,
        ),
        ValueFault::Unreadable => None,
        ValueFault::NoSuchBlob { index, blobs } => Some(
            "Binary placeholder index "@ + decimal(index as nat) + " out of bounds (have "@
                + decimal(blobs as nat) + " blobs)"@,
        ),
    }
}

impl ValueFault {
    /// The message of the fault, unless the engine's own error is reported.
    pub fn message(self) -> (msg: Option<String>)
        ensures
            match msg {
                Some(text) => value_fault_text(self) == Some(text@),
                None => value_fault_text(self) is None,
            },
    {
        match self {
            ValueFault::TooDeep => Some(
                with_number("JSON nesting depth exceeds maximum (", MAX_JSON_DEPTH as u64, ")"),
            ),
            ValueFault::Unreadable => None,
            ValueFault::NoSuchBlob { index, blobs } => {
                let mut text = with_number(
                    "Binary placeholder index ",
                    index as u64,
                    " out of bounds (have ",
                );
                push_decimal(&mut text, blobs as u64);
                text.append(" blobs)");
                Some(text)
            },
        }
    }
}

// ── Coming back ──────────────────────────────────────────────────────

/// A value to be made in the guest's engine.
#[derive(Debug)]
pub enum GuestValue {
    /// `null`
    Null,
    /// A boolean.
    Bool(bool),
    /// An integer.
    Int(i32),
    /// The double nearest to a JSON number.
    Double(JsonNumber),
    /// A string.
    String(String),
    /// A `Uint8Array` with these bytes.
    Uint8Array(Vec<u8>),
    /// An array.
    Array(Vec<GuestValue>),
    /// An object: its properties, in the order in which they are set.
    Object(Vec<(String, GuestValue)>),
}

/// What a [`GuestValue`] stands for.
#[verifier::ext_equal]
pub enum GuestTree {
    /// `null`
    Null,
    /// A boolean.
    Bool(bool),
    /// An integer.
    Int(i32),
    /// The double nearest to a JSON number.
    Double(JsonNumber),
    /// A string.
    String(Seq<char>),
    /// A `Uint8Array`.
    Uint8Array(Seq<u8>),
    /// An array.
    Array(Seq<GuestTree>),
    /// An object.
    Object(Seq<(Seq<char>, GuestTree)>),
}

impl GuestValue {
    /// The tree.
    pub open spec fn tree(self) -> GuestTree
        decreases self,
    {
        match self {
            GuestValue::Null => GuestTree::Null,
            GuestValue::Bool(b) => GuestTree::Bool(b),
            GuestValue::Int(n) => GuestTree::Int(n),
            GuestValue::Double(n) => GuestTree::Double(n),
            GuestValue::String(s) => GuestTree::String(s@),
            GuestValue::Uint8Array(bytes) => GuestTree::Uint8Array(bytes@),
            GuestValue::Array(items) => GuestTree::Array(
                Seq::new(
                    items@.len(),
                    |i: int|
                        if 0 <= i < items@.len() {
                            items@[i].tree()
                        } else {
                            GuestTree::Null
                        },
                ),
            ),
            GuestValue::Object(members) => GuestTree::Object(
                Seq::new(
                    members@.len(),
                    |i: int|
                        if 0 <= i < members@.len() {
                            (members@[i].0@, members@[i].1.tree())
                        } else {
                            (Seq::empty(), GuestTree::Null)
                        },
                ),
            ),
        }
    }
}

impl View for GuestValue {
    type V = GuestTree;

    open spec fn view(&self) -> GuestTree {
        self.tree()
    }
}

/// The trees of several values.
pub open spec fn guest_trees(items: Seq<GuestValue>) -> Seq<GuestTree> {
    Seq::new(items.len(), |i: int| items[i]@)
}

/// The members of an object, as trees.
pub open spec fn guest_member_trees(members: Seq<(String, GuestValue)>) -> Seq<
    (Seq<char>, GuestTree),
> {
    Seq::new(members.len(), |i: int| (members[i].0@, members[i].1@))
}

broadcast proof fn lemma_guest_array_tree(items: Vec<GuestValue>)
    ensures
        #[trigger] GuestValue::Array(items).tree() == GuestTree::Array(guest_trees(items@)),
{
    assert(GuestValue::Array(items).tree()->Array_0 =~= guest_trees(items@));
}

broadcast proof fn lemma_guest_object_tree(members: Vec<(String, GuestValue)>)
    ensures
        #[trigger] GuestValue::Object(members).tree() == GuestTree::Object(
            guest_member_trees(members@),
        ),
{
    assert(GuestValue::Object(members).tree()->Object_0 =~= guest_member_trees(members@));
}

/// A JSON number in the guest: an integer where it is one and fits in 32 bits, else a double.
pub open spec fn number_to_guest(n: JsonNumber) -> GuestTree {
    match n.i64_value() {
        Some(i) => if i32::MIN <= i <= i32::MAX {
            GuestTree::Int(i as i32)
        } else {
            GuestTree::Double(n)
        },
        None => GuestTree::Double(n),
    }
}

/// The guest value of a JSON tree. Where there are blobs, an object that is a placeholder is
/// replaced by the blob it refers to, or refused if there is no such blob.
pub open spec fn json_to_guest(
    t: JsonTree,
    blobs: Option<Seq<Seq<u8>>>,
    depth: nat,
) -> Result<GuestTree, ValueFault>
    decreases t, 0nat,
{
    if depth > MAX_JSON_DEPTH {
        Err(ValueFault::TooDeep)
    } else {
        match t {
            JsonTree::Null => Ok(GuestTree::Null),
            JsonTree::Bool(b) => Ok(GuestTree::Bool(b)),
            JsonTree::Number(n) => Ok(number_to_guest(n)),
            JsonTree::String(s) => Ok(GuestTree::String(s)),
            JsonTree::Array(items) => match guest_items(items, items.len(), blobs, depth + 1) {
                Ok(list) => Ok(GuestTree::Array(list)),
                Err(f) => Err(f),
            },
            JsonTree::Object(members) => match resolve_placeholder(members, blobs) {
                Err(f) => Err(f),
                Ok(Some(bytes)) => Ok(GuestTree::Uint8Array(bytes)),
                Ok(None) => match guest_members(members, members.len(), blobs, depth + 1) {
                    Ok(list) => Ok(GuestTree::Object(list)),
                    Err(f) => Err(f),
                },
            },
        }
    }
}

/// The blob that an object stands for, if there are blobs and it is a placeholder.
pub open spec fn resolve_placeholder(
    members: Seq<(Seq<char>, JsonTree)>,
    blobs: Option<Seq<Seq<u8>>>,
) -> Result<Option<Seq<u8>>, ValueFault> {
    match (blobs, placeholder_index(members)) {
        (Some(list), Some(n)) => {
            let index = n as usize;
            if index < list.len() {
                Ok(Some(list[index as int]))
            } else {
                Err(ValueFault::NoSuchBlob { index, blobs: list.len() as usize })
            }
        },
        _ => Ok(None),
    }
}

/// The guest values of the first `n` items.
pub open spec fn guest_items(
    items: Seq<JsonTree>,
    n: nat,
    blobs: Option<Seq<Seq<u8>>>,
    depth: nat,
) -> Result<Seq<GuestTree>, ValueFault>
    decreases items, n,
{
    if n == 0 || n > items.len() {
        Ok(Seq::empty())
    } else {
        match guest_items(items, (n - 1) as nat, blobs, depth) {
            Err(f) => Err(f),
            Ok(list) => match json_to_guest(items[n - 1], blobs, depth) {
                Ok(item) => Ok(list.push(item)),
                Err(f) => Err(f),
            },
        }
    }
}

/// The guest values of the first `n` members.
pub open spec fn guest_members(
    members: Seq<(Seq<char>, JsonTree)>,
    n: nat,
    blobs: Option<Seq<Seq<u8>>>,
    depth: nat,
) -> Result<Seq<(Seq<char>, GuestTree)>, ValueFault>
    decreases members, n,
{
    if n == 0 || n > members.len() {
        Ok(Seq::empty())
    } else {
        match guest_members(members, (n - 1) as nat, blobs, depth) {
            Err(f) => Err(f),
            Ok(list) => match json_to_guest(members[n - 1].1, blobs, depth) {
                Ok(value) => Ok(list.push((members[n - 1].0, value))),
                Err(f) => Err(f),
            },
        }
    }
}

proof fn lemma_guest_items_fault(
    items: Seq<JsonTree>,
    m: nat,
    n: nat,
    blobs: Option<Seq<Seq<u8>>>,
    depth: nat,
)
    requires
        m <= n <= items.len(),
        guest_items(items, m, blobs, depth) is Err,
    ensures
        guest_items(items, n, blobs, depth) == guest_items(items, m, blobs, depth),
    decreases n,
{
    if m < n {
        lemma_guest_items_fault(items, m, (n - 1) as nat, blobs, depth);
    }
}

proof fn lemma_guest_members_fault(
    members: Seq<(Seq<char>, JsonTree)>,
    m: nat,
    n: nat,
    blobs: Option<Seq<Seq<u8>>>,
    depth: nat,
)
    requires
        m <= n <= members.len(),
        guest_members(members, m, blobs, depth) is Err,
    ensures
        guest_members(members, n, blobs, depth) == guest_members(members, m, blobs, depth),
    decreases n,
{
    if m < n {
        lemma_guest_members_fault(members, m, (n - 1) as nat, blobs, depth);
    }
}

/// The blob that an object stands for, if there are blobs and it is a placeholder.
fn resolve_binary(members: &Vec<(String, Json)>, blobs: Option<&Vec<Vec<u8>>>) -> (r: Result<
    Option<Vec<u8>>,
    ValueFault,
>)
    ensures
        resolve_placeholder(member_trees(members@), optional_contents(blobs)) == (match r {
            Ok(Some(bytes)) => Ok::<Option<Seq<u8>>, ValueFault>(Some(bytes@)),
            Ok(None) => Ok(None),
            Err(f) => Err(f),
        }),
{
    match (blobs, as_placeholder(members)) {
        (Some(list), Some(n)) => {
            let index: usize = n as usize;
            if index < list.len() {
                Ok(Some(slice_to_vec(list[index].as_slice())))
            } else {
                Err(ValueFault::NoSuchBlob { index, blobs: list.len() })
            }
        },
        _ => Ok(None),
    }
}

/// Converts a JSON value to a guest value, replacing placeholders by the blobs they refer to where
/// blobs are given. `depth` is how deep the value stands in what is being converted.
pub fn json_to_js_value(value: Json, blobs: Option<&Vec<Vec<u8>>>, depth: usize) -> (r: Result<
    GuestValue,
    ValueFault,
>)
    ensures
        json_to_guest(value@, optional_contents(blobs), depth as nat) == (match r {
            Ok(v) => Ok::<GuestTree, ValueFault>(v@),
            Err(f) => Err(f),
        }),
    decreases (if depth <= MAX_JSON_DEPTH { 1 + MAX_JSON_DEPTH - depth } else { 0 }),
{
    broadcast use {
        lemma_guest_array_tree,
        lemma_guest_object_tree,
        lemma_array_tree,
        lemma_object_tree,
    };

    if depth > MAX_JSON_DEPTH {
        return Err(ValueFault::TooDeep);
    }
    let ghost resolved = optional_contents(blobs);
    match value {
        Json::Null => Ok(GuestValue::Null),
        Json::Bool(b) => Ok(GuestValue::Bool(b)),
        Json::Number(n) => {
            if let Some(i) = n.as_i64() {
                if i32::MIN as i64 <= i && i <= i32::MAX as i64 {
                    return Ok(GuestValue::Int(i as i32));
                }
            }
            Ok(GuestValue::Double(n))
        },
        Json::String(s) => Ok(GuestValue::String(s)),
        Json::Array(items) => {
            let ghost all = trees(items@);
            let mut list: Vec<GuestValue> = Vec::new();
            assert(guest_trees(list@) =~= Seq::<GuestTree>::empty());
            for item in it: items
                invariant
                    all == trees(it.seq()),
                    value@ == JsonTree::Array(all),
                    resolved == optional_contents(blobs),
                    depth <= MAX_JSON_DEPTH,
                    guest_items(all, it.index() as nat, resolved, (depth + 1) as nat) == Ok::<
                        Seq<GuestTree>,
                        ValueFault,
                    >(guest_trees(list@)),
            {
                let ghost k = it.index();
                assert(all[k] == item@);
                match json_to_js_value(item, blobs, depth + 1) {
                    Ok(v) => {
                        let ghost before = guest_trees(list@);
                        list.push(v);
                        assert(guest_trees(list@) =~= before.push(v@));
                    },
                    Err(f) => {
                        proof {
                            lemma_guest_items_fault(
                                all,
                                (k + 1) as nat,
                                all.len(),
                                resolved,
                                (depth + 1) as nat,
                            );
                        }
                        return Err(f);
                    },
                }
            }
            Ok(GuestValue::Array(list))
        },
        Json::Object(members) => {
            let ghost all = member_trees(members@);
            match resolve_binary(&members, blobs) {
                Err(f) => {
                    return Err(f);
                },
                Ok(Some(bytes)) => {
                    return Ok(GuestValue::Uint8Array(bytes));
                },
                Ok(None) => {},
            }
            let mut list: Vec<(String, GuestValue)> = Vec::new();
            assert(guest_member_trees(list@) =~= Seq::<(Seq<char>, GuestTree)>::empty());
            for member in it: members
                invariant
                    all == member_trees(it.seq()),
                    value@ == JsonTree::Object(all),
                    resolve_placeholder(all, resolved) == Ok::<Option<Seq<u8>>, ValueFault>(None),
                    resolved == optional_contents(blobs),
                    depth <= MAX_JSON_DEPTH,
                    guest_members(all, it.index() as nat, resolved, (depth + 1) as nat) == Ok::<
                        Seq<(Seq<char>, GuestTree)>,
                        ValueFault,
                    >(guest_member_trees(list@)),
            {
                let ghost k = it.index();
                assert(all[k] == (member.0@, member.1@));
                let (key, inner) = member;
                match json_to_js_value(inner, blobs, depth + 1) {
                    Ok(v) => {
                        let ghost before = guest_member_trees(list@);
                        list.push((key, v));
                        assert(guest_member_trees(list@) =~= before.push((key@, v@)));
                    },
                    Err(f) => {
                        proof {
                            lemma_guest_members_fault(
                                all,
                                (k + 1) as nat,
                                all.len(),
                                resolved,
                                (depth + 1) as nat,
                            );
                        }
                        return Err(f);
                    },
                }
            }
            Ok(GuestValue::Object(list))
        },
    }
}

/// Converts a JSON value to a guest value, taking every object as it is.
pub fn json_to_plain_value(value: Json, depth: usize) -> (r: Result<GuestValue, ValueFault>)
    ensures
        json_to_guest(value@, None, depth as nat) == (match r {
            Ok(v) => Ok::<GuestTree, ValueFault>(v@),
            Err(f) => Err(f),
        }),
{
    json_to_js_value(value, None, depth)
}

/// Converts a JSON value to a guest value, replacing `{"__bin__": N}` by blob `N`.
pub fn json_to_value_with_blobs(value: Json, blobs: &Vec<Vec<u8>>, depth: usize) -> (r: Result<
    GuestValue,
    ValueFault,
>)
    ensures
        json_to_guest(value@, Some(contents(blobs@)), depth as nat) == (match r {
            Ok(v) => Ok::<GuestTree, ValueFault>(v@),
            Err(f) => Err(f),
        }),
{
    json_to_js_value(value, Some(blobs), depth)
}

} // verus!
