//! Values between host functions written in Python and guest code.

use crate::common::{contents, optional_contents, FnReturn, ReturnContents};
use crate::double::{finite, is_finite};
use crate::host_api::error::{api_error, hl_error, invalid_arg_error, ApiError, ErrorCode};
use crate::host_api::node::spread;
use crate::json::{
    as_placeholder, lemma_array_tree, lemma_object_tree, member_trees, placeholder_index,
    put_member, trees, with_member, Json, JsonNumber, JsonTree,
};
use crate::sandbox::error::{ErrorContents, HyperlightError};
use crate::sandbox::host_fn::Function;
use crate::sandbox::json_text::{
    json_error_string, json_error_text, json_rendered, render_json,
};
use crate::text::{joined, with_text};
use vstd::prelude::*;
use vstd::slice::slice_to_vec;
use vstd::string::*;

verus! {

/// Text of a Python string, if Python could give it.
#[derive(Debug)]
pub enum PyText {
    /// The text.
    Text(String),
    /// Python raised an error instead.
    Raised,
}

/// A key of a Python dict.
#[derive(Debug)]
pub enum PyKey {
    /// A string.
    Text(PyText),
    /// Anything else.
    NotAString,
}

/// What a Python object can be read as. It can often be read in more than one way: `True` is a
/// boolean and an integer too.
#[derive(Debug)]
pub struct PyProbe {
    /// It is `None`.
    pub none: bool,
    /// As a boolean.
    pub boolean: Option<bool>,
    /// As a signed integer.
    pub int: Option<i64>,
    /// As an unsigned integer.
    pub uint: Option<u64>,
    /// As a float: the bits of the double.
    pub float: Option<u64>,
    /// As a string.
    pub text: Option<PyText>,
    /// As a list.
    pub list: Option<Vec<PyProbe>>,
    /// As a tuple.
    pub tuple: Option<Vec<PyProbe>>,
    /// As a dict.
    pub dict: Option<Vec<(PyKey, PyProbe)>>,
}

/// Why a Python object has no JSON form.
#[derive(Debug, Clone, Copy, PartialEq, Eq, Structural)]
pub enum PyFault {
    /// A float is infinite or NaN.
    NonFinite,
    /// A dict has a key that is no string.
    KeyNotAString,
    /// It can be read as nothing that JSON has.
    Unsupported,
    /// Python raised an error, which is reported as it is.
    Raised,
}

/// The message of a fault, unless Python's own error is reported.
pub open spec fn py_fault_text(f: PyFault) -> Option<Seq<char>> {
    match f {
        PyFault::NonFinite => Some(
            "non-finite float (NaN/Infinity) cannot be represented in JSON"@,
        ),
        PyFault::KeyNotAString => Some("dict keys must be strings to convert to JSON"@),
        PyFault::Unsupported => Some(
            "unsupported value for JSON conversion (expected None/bool/int/float/str/list/tuple/dict)"@,
        ),
        PyFault::Raised => None,
    }
}

impl PyFault {
    /// The error that reports the fault, unless Python's own error is reported.
    pub fn to_error(&self) -> (r: Option<ApiError>)
        ensures
            match (py_fault_text(*self), r) {
                (Some(text), Some(e)) => e@ == api_error(ErrorCode::InvalidArg, text),
                (None, None) => true,
                _ => false,
            },
    {
        match self {
            PyFault::NonFinite => Some(
                invalid_arg_error("non-finite float (NaN/Infinity) cannot be represented in JSON"),
            ),
            PyFault::KeyNotAString => Some(
                invalid_arg_error("dict keys must be strings to convert to JSON"),
            ),
            PyFault::Unsupported => Some(
                invalid_arg_error(
                    "unsupported value for JSON conversion (expected None/bool/int/float/str/list/tuple/dict)",
                ),
            ),
            PyFault::Raised => None,
        }
    }
}

/// The JSON form of a Python object. A boolean is no integer here, though Python thinks it is one;
/// an integer that fits neither integer type is read as a float.
pub open spec fn py_json(p: PyProbe) -> Result<JsonTree, PyFault>
    decreases p, 0nat,
{
    if p.none {
        Ok(JsonTree::Null)
    } else if p.boolean is Some {
        Ok(JsonTree::Bool(p.boolean->0))
    } else if p.int is Some {
        Ok(JsonTree::Number(JsonNumber::of_int(p.int->0)))
    } else if p.uint is Some {
        Ok(JsonTree::Number(JsonNumber::PosInt(p.uint->0)))
    } else if p.float is Some {
        if is_finite(p.float->0) {
            Ok(JsonTree::Number(JsonNumber::Float(p.float->0)))
        } else {
            Err(PyFault::NonFinite)
        }
    } else if p.text is Some {
        match p.text->0 {
            PyText::Text(s) => Ok(JsonTree::String(s@)),
            PyText::Raised => Err(PyFault::Raised),
        }
    } else if p.list is Some {
        match py_items(p.list->0@, p.list->0@.len()) {
            Ok(list) => Ok(JsonTree::Array(list)),
            Err(f) => Err(f),
        }
    } else if p.tuple is Some {
        match py_items(p.tuple->0@, p.tuple->0@.len()) {
            Ok(list) => Ok(JsonTree::Array(list)),
            Err(f) => Err(f),
        }
    } else if p.dict is Some {
        match py_members(p.dict->0@, p.dict->0@.len()) {
            Ok(list) => Ok(JsonTree::Object(list)),
            Err(f) => Err(f),
        }
    } else {
        Err(PyFault::Unsupported)
    }
}

/// The JSON forms of the first `n` items.
pub open spec fn py_items(items: Seq<PyProbe>, n: nat) -> Result<Seq<JsonTree>, PyFault>
    decreases items, n,
{
    if n == 0 || n > items.len() {
        Ok(Seq::empty())
    } else {
        match py_items(items, (n - 1) as nat) {
            Err(f) => Err(f),
            Ok(list) => match py_json(items[n - 1]) {
                Ok(item) => Ok(list.push(item)),
                Err(f) => Err(f),
            },
        }
    }
}

/// The text of a key.
pub open spec fn key_text(key: PyKey) -> Result<Seq<char>, PyFault> {
    match key {
        PyKey::Text(PyText::Text(s)) => Ok(s@),
        PyKey::Text(PyText::Raised) => Err(PyFault::Raised),
        PyKey::NotAString => Err(PyFault::KeyNotAString),
    }
}

/// The JSON forms of the first `n` members. The key of a member is looked at before its value.
pub open spec fn py_members(members: Seq<(PyKey, PyProbe)>, n: nat) -> Result<
    Seq<(Seq<char>, JsonTree)>,
    PyFault,
>
    decreases members, n,
{
    if n == 0 || n > members.len() {
        Ok(Seq::empty())
    } else {
        match py_members(members, (n - 1) as nat) {
            Err(f) => Err(f),
            Ok(list) => match key_text(members[n - 1].0) {
                Err(f) => Err(f),
                Ok(key) => match py_json(members[n - 1].1) {
                    Ok(value) => Ok(with_member(list, key, value)),
                    Err(f) => Err(f),
                },
            },
        }
    }
}

proof fn lemma_py_items_fault(items: Seq<PyProbe>, m: nat, n: nat)
    requires
        m <= n <= items.len(),
        py_items(items, m) is Err,
    ensures
        py_items(items, n) == py_items(items, m),
    decreases n,
{
    if m < n {
        lemma_py_items_fault(items, m, (n - 1) as nat);
    }
}

proof fn lemma_py_members_fault(members: Seq<(PyKey, PyProbe)>, m: nat, n: nat)
    requires
        m <= n <= members.len(),
        py_members(members, m) is Err,
    ensures
        py_members(members, n) == py_members(members, m),
    decreases n,
{
    if m < n {
        lemma_py_members_fault(members, m, (n - 1) as nat);
    }
}

/// The JSON number of a float, which has to be finite.
pub fn json_number_from_f64(bits: u64) -> (r: Result<Json, PyFault>)
    ensures
        match r {
            Ok(json) => is_finite(bits) && json@ == JsonTree::Number(JsonNumber::Float(bits)),
            Err(f) => !is_finite(bits) && f == PyFault::NonFinite,
        },
{
    if finite(bits) {
        Ok(Json::Number(JsonNumber::Float(bits)))
    } else {
        Err(PyFault::NonFinite)
    }
}

/// Converts the items of a list or tuple to JSON.
fn py_items_to_json(items: &Vec<PyProbe>) -> (r: Result<Vec<Json>, PyFault>)
    ensures
        py_items(items@, items@.len()) == (match r {
            Ok(list) => Ok::<Seq<JsonTree>, PyFault>(trees(list@)),
            Err(f) => Err(f),
        }),
    decreases items@, 1nat,
{
    let mut list: Vec<Json> = Vec::new();
    let mut i: usize = 0;
    assert(trees(list@) =~= Seq::<JsonTree>::empty());
    while i < items.len()
        invariant
            i <= items@.len(),
            py_items(items@, i as nat) == Ok::<Seq<JsonTree>, PyFault>(trees(list@)),
        decreases items@.len() - i,
    {
        match py_to_json(&items[i]) {
            Ok(json) => {
                let ghost before = trees(list@);
                list.push(json);
                assert(trees(list@) =~= before.push(json@));
            },
            Err(f) => {
                proof {
                    lemma_py_items_fault(items@, (i + 1) as nat, items@.len());
                }
                return Err(f);
            },
        }
        i += 1;
    }
    Ok(list)
}

/// Converts the members of a dict to JSON.
fn py_members_to_json(members: &Vec<(PyKey, PyProbe)>) -> (r: Result<
    Vec<(String, Json)>,
    PyFault,
>)
    ensures
        py_members(members@, members@.len()) == (match r {
            Ok(list) => Ok::<Seq<(Seq<char>, JsonTree)>, PyFault>(member_trees(list@)),
            Err(f) => Err(f),
        }),
    decreases members@, 1nat,
{
    let mut list: Vec<(String, Json)> = Vec::new();
    let mut i: usize = 0;
    assert(member_trees(list@) =~= Seq::<(Seq<char>, JsonTree)>::empty());
    while i < members.len()
        invariant
            i <= members@.len(),
            py_members(members@, i as nat) == Ok::<Seq<(Seq<char>, JsonTree)>, PyFault>(
                member_trees(list@),
            ),
        decreases members@.len() - i,
    {
        let key: Result<String, PyFault> = match &members[i].0 {
            PyKey::Text(PyText::Text(s)) => Ok(s.clone()),
            PyKey::Text(PyText::Raised) => Err(PyFault::Raised),
            PyKey::NotAString => Err(PyFault::KeyNotAString),
        };
        let key = match key {
            Ok(key) => key,
            Err(f) => {
                proof {
                    lemma_py_members_fault(members@, (i + 1) as nat, members@.len());
                }
                return Err(f);
            },
        };
        match py_to_json(&members[i].1) {
            Ok(json) => {
                put_member(&mut list, key, json);
            },
            Err(f) => {
                proof {
                    lemma_py_members_fault(members@, (i + 1) as nat, members@.len());
                }
                return Err(f);
            },
        }
        i += 1;
    }
    Ok(list)
}

/// Converts a Python object to JSON. Bytes have no JSON form: they cross only as the whole value
/// that a host function gives back.
pub fn py_to_json(obj: &PyProbe) -> (r: Result<Json, PyFault>)
    ensures
        py_json(*obj) == (match r {
            Ok(json) => Ok::<JsonTree, PyFault>(json@),
            Err(f) => Err(f),
        }),
    decreases *obj, 0nat,
{
    broadcast use {lemma_array_tree, lemma_object_tree};

    if obj.none {
        return Ok(Json::Null);
    }
    if let Some(b) = obj.boolean {
        return Ok(Json::Bool(b));
    }
    if let Some(n) = obj.int {
        return Ok(Json::Number(JsonNumber::from_i64(n)));
    }
    if let Some(n) = obj.uint {
        return Ok(Json::Number(JsonNumber::PosInt(n)));
    }
    if let Some(bits) = obj.float {
        return json_number_from_f64(bits);
    }
    if let Some(text) = &obj.text {
        return match text {
            PyText::Text(s) => Ok(Json::String(s.clone())),
            PyText::Raised => Err(PyFault::Raised),
        };
    }
    if let Some(items) = &obj.list {
        return match py_items_to_json(items) {
            Ok(list) => Ok(Json::Array(list)),
            Err(f) => Err(f),
        };
    }
    if let Some(items) = &obj.tuple {
        return match py_items_to_json(items) {
            Ok(list) => Ok(Json::Array(list)),
            Err(f) => Err(f),
        };
    }
    if let Some(members) = &obj.dict {
        return match py_members_to_json(members) {
            Ok(list) => Ok(Json::Object(list)),
            Err(f) => Err(f),
        };
    }
    Err(PyFault::Unsupported)
}

// ── From JSON ────────────────────────────────────────────────────────

/// A Python object to be made.
#[derive(Debug)]
pub enum PyValue {
    /// `None`
    Null,
    /// A `bool`.
    Bool(bool),
    /// An `int` that fits in 64 bits with a sign.
    Int(i64),
    /// Any other `int`.
    UInt(u64),
    /// A `float`: the bits of the double.
    Float(u64),
    /// A `str`.
    Str(String),
    /// `bytes`
    Bytes(Vec<u8>),
    /// A `list`.
    List(Vec<PyValue>),
    /// A `dict`: its items, in the order in which they are set.
    Dict(Vec<(String, PyValue)>),
}

/// What a [`PyValue`] stands for.
#[verifier::ext_equal]
pub enum PyTree {
    /// `None`
    Null,
    /// A `bool`.
    Bool(bool),
    /// An `int` that fits in 64 bits with a sign.
    Int(i64),
    /// Any other `int`.
    UInt(u64),
    /// A `float`.
    Float(u64),
    /// A `str`.
    Str(Seq<char>),
    /// `bytes`
    Bytes(Seq<u8>),
    /// A `list`.
    List(Seq<PyTree>),
    /// A `dict`.
    Dict(Seq<(Seq<char>, PyTree)>),
}

impl PyValue {
    /// The tree.
    pub open spec fn tree(self) -> PyTree
        decreases self,
    {
        match self {
            PyValue::Null => PyTree::Null,
            PyValue::Bool(b) => PyTree::Bool(b),
            PyValue::Int(n) => PyTree::Int(n),
            PyValue::UInt(n) => PyTree::UInt(n),
            PyValue::Float(bits) => PyTree::Float(bits),
            PyValue::Str(s) => PyTree::Str(s@),
            PyValue::Bytes(bytes) => PyTree::Bytes(bytes@),
            PyValue::List(items) => PyTree::List(
                Seq::new(
                    items@.len(),
                    |i: int|
                        if 0 <= i < items@.len() {
                            items@[i].tree()
                        } else {
                            PyTree::Null
                        },
                ),
            ),
            PyValue::Dict(members) => PyTree::Dict(
                Seq::new(
                    members@.len(),
                    |i: int|
                        if 0 <= i < members@.len() {
                            (members@[i].0@, members@[i].1.tree())
                        } else {
                            (Seq::empty(), PyTree::Null)
                        },
                ),
            ),
        }
    }
}

impl View for PyValue {
    type V = PyTree;

    open spec fn view(&self) -> PyTree {
        self.tree()
    }
}

/// The trees of several values.
pub open spec fn py_trees(items: Seq<PyValue>) -> Seq<PyTree> {
    Seq::new(items.len(), |i: int| items[i]@)
}

/// The items of a dict, as trees.
pub open spec fn py_member_trees(members: Seq<(String, PyValue)>) -> Seq<(Seq<char>, PyTree)> {
    Seq::new(members.len(), |i: int| (members[i].0@, members[i].1@))
}

broadcast proof fn lemma_py_list_tree(items: Vec<PyValue>)
    ensures
        #[trigger] PyValue::List(items).tree() == PyTree::List(py_trees(items@)),
{
    assert(PyValue::List(items).tree()->List_0 =~= py_trees(items@));
}

broadcast proof fn lemma_py_dict_tree(members: Vec<(String, PyValue)>)
    ensures
        #[trigger] PyValue::Dict(members).tree() == PyTree::Dict(py_member_trees(members@)),
{
    assert(PyValue::Dict(members).tree()->Dict_0 =~= py_member_trees(members@));
}

/// The blob that an object stands for: there are blobs, it is a placeholder, and there is a blob
/// with that index.
pub open spec fn placeholder_bytes(
    members: Seq<(Seq<char>, JsonTree)>,
    blobs: Option<Seq<Seq<u8>>>,
) -> Option<Seq<u8>> {
    match (blobs, placeholder_index(members)) {
        (Some(list), Some(n)) => if (n as usize) < list.len() {
            Some(list[n as usize as int])
        } else {
            None
        },
        _ => None,
    }
}

/// A JSON number in Python: an integer where it is stored as one, else a float.
pub open spec fn number_to_py(n: JsonNumber) -> PyTree {
    match n {
        JsonNumber::PosInt(u) => if u <= i64::MAX {
            PyTree::Int(u as i64)
        } else {
            PyTree::UInt(u)
        },
        JsonNumber::NegInt(i) => PyTree::Int(i),
        JsonNumber::Float(bits) => PyTree::Float(bits),
    }
}

/// The Python object of a JSON tree. Where there are blobs, a placeholder for one of them is
/// replaced by its bytes; any other object is a dict.
pub open spec fn json_py(t: JsonTree, blobs: Option<Seq<Seq<u8>>>) -> PyTree
    decreases t,
{
    match t {
        JsonTree::Null => PyTree::Null,
        JsonTree::Bool(b) => PyTree::Bool(b),
        JsonTree::Number(n) => number_to_py(n),
        JsonTree::String(s) => PyTree::Str(s),
        JsonTree::Array(items) => PyTree::List(
            Seq::new(
                items.len(),
                |i: int|
                    if 0 <= i < items.len() {
                        json_py(items[i], blobs)
                    } else {
                        PyTree::Null
                    },
            ),
        ),
        JsonTree::Object(members) => match placeholder_bytes(members, blobs) {
            Some(bytes) => PyTree::Bytes(bytes),
            None => PyTree::Dict(
                Seq::new(
                    members.len(),
                    |i: int|
                        if 0 <= i < members.len() {
                            (members[i].0, json_py(members[i].1, blobs))
                        } else {
                            (Seq::empty(), PyTree::Null)
                        },
                ),
            ),
        },
    }
}

/// The blob that an object stands for, if it stands for one.
pub fn bin_placeholder<'a>(
    members: &Vec<(String, Json)>,
    blobs: Option<&'a Vec<Vec<u8>>>,
) -> (r: Option<&'a [u8]>)
    ensures
        placeholder_bytes(member_trees(members@), optional_contents(blobs)) == (match r {
            Some(bytes) => Some(bytes@),
            None => None,
        }),
{
    match (blobs, as_placeholder(members)) {
        (Some(list), Some(n)) => {
            let index: usize = n as usize;
            if index < list.len() {
                Some(list[index].as_slice())
            } else {
                None
            }
        },
        _ => None,
    }
}

/// Converts a JSON value to a Python object, replacing `{"__bin__": N}` by blob `N` where blobs
/// are given and there is such a blob.
pub fn json_to_py(value: &Json, blobs: Option<&Vec<Vec<u8>>>) -> (r: PyValue)
    ensures
        r@ == json_py(value@, optional_contents(blobs)),
    decreases *value,
{
    broadcast use {lemma_array_tree, lemma_object_tree, lemma_py_list_tree, lemma_py_dict_tree};

    let ghost bytes = optional_contents(blobs);
    match value {
        Json::Null => PyValue::Null,
        Json::Bool(b) => PyValue::Bool(*b),
        Json::Number(n) => {
            if let Some(i) = n.as_i64() {
                PyValue::Int(i)
            } else if let Some(u) = n.as_u64() {
                PyValue::UInt(u)
            } else {
                match n {
                    JsonNumber::Float(bits) => PyValue::Float(*bits),
                    _ => PyValue::Null,
                }
            }
        },
        Json::String(s) => PyValue::Str(s.clone()),
        Json::Array(items) => {
            let mut list: Vec<PyValue> = Vec::new();
            let mut i: usize = 0;
            while i < items.len()
                invariant
                    i <= items@.len(),
                    list@.len() == i,
                    *value == Json::Array(*items),
                    bytes == optional_contents(blobs),
                    forall|j: int|
                        0 <= j < i ==> (#[trigger] list@[j])@ == json_py(items@[j]@, bytes),
                decreases items@.len() - i,
            {
                assert(decreases_to!(*value => value->Array_0));
                assert(decreases_to!(items => items@));
                assert(decreases_to!(items@ => items@[i as int]));
                let item = json_to_py(&items[i], blobs);
                list.push(item);
                i += 1;
            }
            assert(py_trees(list@) =~= json_py(value@, bytes)->List_0);
            PyValue::List(list)
        },
        Json::Object(members) => {
            if let Some(blob) = bin_placeholder(members, blobs) {
                return PyValue::Bytes(slice_to_vec(blob));
            }
            let mut list: Vec<(String, PyValue)> = Vec::new();
            let mut i: usize = 0;
            while i < members.len()
                invariant
                    i <= members@.len(),
                    list@.len() == i,
                    *value == Json::Object(*members),
                    bytes == optional_contents(blobs),
                    forall|j: int|
                        0 <= j < i ==> (#[trigger] list@[j]).0@ == members@[j].0@
                            && list@[j].1@ == json_py(members@[j].1@, bytes),
                decreases members@.len() - i,
            {
                assert(decreases_to!(*value => value->Object_0));
                assert(decreases_to!(members => members@));
                assert(decreases_to!(members@ => members@[i as int]));
                assert(decreases_to!(members@[i as int] => members@[i as int].1));
                let item = json_to_py(&members[i].1, blobs);
                list.push((members[i].0.clone(), item));
                i += 1;
            }
            assert(py_member_trees(list@) =~= json_py(value@, bytes)->Dict_0);
            PyValue::Dict(list)
        },
    }
}

/// The arguments of a call, one by one: the items of an array, or one argument that is no array.
pub fn py_args(args: &Json, blobs: &Vec<Vec<u8>>) -> (list: Vec<PyValue>)
    ensures
        list@.len() == spread(args@).len(),
        forall|i: int|
            0 <= i < list@.len() ==> (#[trigger] list@[i])@ == json_py(
                spread(args@)[i],
                Some(contents(blobs@)),
            ),
{
    broadcast use {lemma_array_tree, lemma_object_tree};

    let mut list: Vec<PyValue> = Vec::new();
    match args {
        Json::Array(items) => {
            let mut i: usize = 0;
            while i < items.len()
                invariant
                    i <= items@.len(),
                    list@.len() == i,
                    args@ == JsonTree::Array(trees(items@)),
                    forall|j: int|
                        0 <= j < i ==> (#[trigger] list@[j])@ == json_py(
                            items@[j]@,
                            Some(contents(blobs@)),
                        ),
                decreases items@.len() - i,
            {
                list.push(json_to_py(&items[i], Some(blobs)));
                i += 1;
            }
        },
        other => {
            list.push(json_to_py(other, Some(blobs)));
        },
    }
    list
}

// ── What host functions give back ────────────────────────────────────

/// What a host function gave back.
#[derive(Debug)]
pub enum PyReturn {
    /// `bytes`
    Bytes(Vec<u8>),
    /// A `bytearray`.
    ByteArray(Vec<u8>),
    /// Anything else.
    Other(PyProbe),
}

/// Why what a host function gave back cannot be sent.
#[derive(Debug)]
pub enum PyReturnError {
    /// It has no JSON form.
    Fault(PyFault),
    /// Its JSON form could not be written.
    Report(ApiError),
}

/// What a host function gave back comes to, where `value` is its JSON form.
pub open spec fn render_outcome(
    value: serde_json::Value,
    r: Result<FnReturn, PyReturnError>,
) -> bool {
    match json_rendered(value) {
        Ok(text) => r matches Ok(ret) && ret@ == ReturnContents::Json(text),
        Err(f) => r matches Err(PyReturnError::Report(e)) && e@ == api_error(
            ErrorCode::Internal,
            "failed to serialize host return value: "@ + json_error_text(f),
        ),
    }
}

/// Converts what a host function gave back: bytes go as they are, anything else as JSON text.
/// `encoder` turns the library's JSON into a `serde_json` value.
pub fn py_return_to_fnreturn<E: Function<serde_json::Value, Json>>(
    result: PyReturn,
    encoder: &E,
) -> (r: Result<FnReturn, PyReturnError>)
    ensures
        match result {
            PyReturn::Bytes(bytes) => r matches Ok(ret) && ret@ == ReturnContents::Binary(bytes@),
            PyReturn::ByteArray(bytes) => r matches Ok(ret) && ret@ == ReturnContents::Binary(
                bytes@,
            ),
            PyReturn::Other(obj) => if obj.none {
                r matches Ok(ret) && ret@ == ReturnContents::Json("null"@)
            } else {
                match py_json(obj) {
                    Err(f) => r matches Err(PyReturnError::Fault(g)) && g == f,
                    Ok(t) => exists|json: Json, value: serde_json::Value|
                        json@ == t && call_ensures(E::call, (encoder, json), value)
                            && render_outcome(value, r),
                }
            },
        },
{
    match result {
        PyReturn::Bytes(bytes) => Ok(FnReturn::Binary(bytes)),
        PyReturn::ByteArray(bytes) => Ok(FnReturn::Binary(bytes)),
        PyReturn::Other(obj) => {
            if obj.none {
                return Ok(FnReturn::Json("null".to_owned()));
            }
            let json = match py_to_json(&obj) {
                Ok(json) => json,
                Err(f) => {
                    return Err(PyReturnError::Fault(f));
                },
            };
            let value = encoder.call(json);
            assert(call_ensures(E::call, (encoder, json), value));
            let r = match render_json(&value) {
                Ok(text) => Ok(FnReturn::Json(text)),
                Err(e) => Err(
                    PyReturnError::Report(
                        hl_error(
                            ErrorCode::Internal,
                            joined(
                                "failed to serialize host return value: ",
                                json_error_string(&e).as_str(),
                            ).as_str(),
                        ),
                    ),
                ),
            };
            assert(render_outcome(value, r));
            r
        },
    }
}

/// The error of a host function that raised. `reason` says what.
pub fn raised_error(function: &str, reason: &str) -> (e: HyperlightError)
    ensures
        e@ == ErrorContents::Error(
            "host function '"@ + function@ + "' raised: "@ + reason@,
        ),
{
    let mut text = with_text("host function '", function, "' raised: ");
    text.append(reason);
    HyperlightError::Error(text)
}

/// What the guest's `print` gets back: 0, or -1 if the callback raised.
pub fn print_status(raised: bool) -> (status: i32)
    ensures
        status == (if raised {
            -1i32
        } else {
            0
        }),
{
    if raised {
        -1
    } else {
        0
    }
}

} // verus!
