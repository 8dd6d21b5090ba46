//! JSON values as plain data, and what the conversions read of them.

use crate::common::PLACEHOLDER_BIN;
use crate::text::same_text;
use vstd::prelude::*;

verus! {

/// A JSON number, kept apart by how it is stored.
#[derive(Debug, Clone, Copy, PartialEq, Eq, Structural)]
pub enum JsonNumber {
    /// A non-negative integer.
    PosInt(u64),
    /// A negative integer.
    NegInt(i64),
    /// Any other number: the bits of an IEEE 754 double.
    Float(u64),
}

/// A JSON value. An object lists its members in order.
#[derive(Debug)]
pub enum Json {
    /// `null`
    Null,
    /// `true` or `false`
    Bool(bool),
    /// A number.
    Number(JsonNumber),
    /// A string.
    String(String),
    /// An array.
    Array(Vec<Json>),
    /// An object.
    Object(Vec<(String, Json)>),
}

/// What a [`Json`] stands for.
#[verifier::ext_equal]
pub enum JsonTree {
    /// `null`
    Null,
    /// `true` or `false`
    Bool(bool),
    /// A number.
    Number(JsonNumber),
    /// A string.
    String(Seq<char>),
    /// An array.
    Array(Seq<JsonTree>),
    /// An object.
    Object(Seq<(Seq<char>, JsonTree)>),
}

impl Json {
    /// The tree.
    pub open spec fn tree(self) -> JsonTree
        decreases self,
    {
        match self {
            Json::Null => JsonTree::Null,
            Json::Bool(b) => JsonTree::Bool(b),
            Json::Number(n) => JsonTree::Number(n),
            Json::String(s) => JsonTree::String(s@),
            Json::Array(items) => JsonTree::Array(
                Seq::new(
                    items@.len(),
                    |i: int|
                        if 0 <= i < items@.len() {
                            items@[i].tree()
                        } else {
                            JsonTree::Null
                        },
                ),
            ),
            Json::Object(members) => JsonTree::Object(
                Seq::new(
                    members@.len(),
                    |i: int|
                        if 0 <= i < members@.len() {
                            (members@[i].0@, members@[i].1.tree())
                        } else {
                            (Seq::empty(), JsonTree::Null)
                        },
                ),
            ),
        }
    }
}

impl View for Json {
    type V = JsonTree;

    open spec fn view(&self) -> JsonTree {
        self.tree()
    }
}

/// The trees of several values.
pub open spec fn trees(items: Seq<Json>) -> Seq<JsonTree> {
    Seq::new(items.len(), |i: int| items[i]@)
}

/// The members of an object, as trees.
pub open spec fn member_trees(members: Seq<(String, Json)>) -> Seq<(Seq<char>, JsonTree)> {
    Seq::new(members.len(), |i: int| (members[i].0@, members[i].1@))
}

/// An array's tree is the list of its items' trees.
pub broadcast proof fn lemma_array_tree(items: Vec<Json>)
    ensures
        #[trigger] Json::Array(items).tree() == JsonTree::Array(trees(items@)),
{
    assert(Json::Array(items).tree()->Array_0 =~= trees(items@));
}

/// An object's tree is the list of its members.
pub broadcast proof fn lemma_object_tree(members: Vec<(String, Json)>)
    ensures
        #[trigger] Json::Object(members).tree() == JsonTree::Object(member_trees(members@)),
{
    assert(Json::Object(members).tree()->Object_0 =~= member_trees(members@));
}

impl JsonNumber {
    /// The number of an integer.
    pub open spec fn of_int(n: i64) -> JsonNumber {
        if n < 0 {
            JsonNumber::NegInt(n)
        } else {
            JsonNumber::PosInt(n as u64)
        }
    }

    /// The number as an `i64`, if it is stored as an integer and fits.
    pub open spec fn i64_value(self) -> Option<i64> {
        match self {
            JsonNumber::PosInt(n) => if n <= i64::MAX {
                Some(n as i64)
            } else {
                None
            },
            JsonNumber::NegInt(n) => Some(n),
            JsonNumber::Float(_) => None,
        }
    }

    /// The number as a `u64`, if it is stored as a non-negative integer.
    pub open spec fn u64_value(self) -> Option<u64> {
        match self {
            JsonNumber::PosInt(n) => Some(n),
            _ => None,
        }
    }

    /// The number of an integer.
    pub fn from_i64(n: i64) -> (r: JsonNumber)
        ensures
            r == JsonNumber::of_int(n),
    {
        if n < 0 {
            JsonNumber::NegInt(n)
        } else {
            JsonNumber::PosInt(n as u64)
        }
    }

    /// The number as an `i64`, if it is stored as an integer and fits.
    pub fn as_i64(self) -> (r: Option<i64>)
        ensures
            r == self.i64_value(),
    {
        match self {
            JsonNumber::PosInt(n) => if n <= i64::MAX as u64 {
                Some(n as i64)
            } else {
                None
            },
            JsonNumber::NegInt(n) => Some(n),
            JsonNumber::Float(_) => None,
        }
    }

    /// The number as a `u64`, if it is stored as a non-negative integer.
    pub fn as_u64(self) -> (r: Option<u64>)
        ensures
            r == self.u64_value(),
    {
        match self {
            JsonNumber::PosInt(n) => Some(n),
            _ => None,
        }
    }
}

/// The blob index that an object stands for: its only member is `"__bin__"`, and that member's
/// value is a non-negative integer.
pub open spec fn placeholder_index(members: Seq<(Seq<char>, JsonTree)>) -> Option<u64> {
    if members.len() == 1 && members[0].0 == PLACEHOLDER_BIN@ {
        match members[0].1 {
            JsonTree::Number(n) => n.u64_value(),
            _ => None,
        }
    } else {
        None
    }
}

/// The object that stands for blob `index`.
pub open spec fn placeholder_tree(index: u64) -> JsonTree {
    JsonTree::Object(
        seq![(PLACEHOLDER_BIN@, JsonTree::Number(JsonNumber::PosInt(index)))],
    )
}

/// The blob index that an object stands for, if it is a placeholder.
pub fn as_placeholder(members: &Vec<(String, Json)>) -> (index: Option<u64>)
    ensures
        index == placeholder_index(member_trees(members@)),
{
    if members.len() != 1 {
        return None;
    }
    let member = &members[0];
    assert(member_trees(members@)[0] == (member.0@, member.1@));
    if same_text(member.0.as_str(), PLACEHOLDER_BIN) {
        match &member.1 {
            Json::Number(n) => n.as_u64(),
            _ => None,
        }
    } else {
        None
    }
}

/// The members with `key` set to `value`: in its place if the key is there, else at the end.
pub open spec fn with_member(
    members: Seq<(Seq<char>, JsonTree)>,
    key: Seq<char>,
    value: JsonTree,
) -> Seq<(Seq<char>, JsonTree)>
    decreases members.len(),
{
    if members.len() == 0 {
        seq![(key, value)]
    } else if members[0].0 == key {
        seq![(key, value)] + members.drop_first()
    } else {
        seq![members[0]] + with_member(members.drop_first(), key, value)
    }
}

/// No member has the key.
pub open spec fn lacks_key(members: Seq<(Seq<char>, JsonTree)>, key: Seq<char>) -> bool {
    forall|i: int| 0 <= i < members.len() ==> (#[trigger] members[i]).0 != key
}

pub proof fn lemma_with_member_absent(
    members: Seq<(Seq<char>, JsonTree)>,
    key: Seq<char>,
    value: JsonTree,
)
    requires
        lacks_key(members, key),
    ensures
        with_member(members, key, value) == members.push((key, value)),
    decreases members.len(),
{
    if members.len() > 0 {
        assert(members[0].0 != key);
        lemma_with_member_absent(members.drop_first(), key, value);
    }
    assert(with_member(members, key, value) =~= members.push((key, value)));
}

proof fn lemma_with_member_present(
    members: Seq<(Seq<char>, JsonTree)>,
    key: Seq<char>,
    value: JsonTree,
    i: int,
)
    requires
        0 <= i < members.len(),
        members[i].0 == key,
        lacks_key(members.take(i), key),
    ensures
        with_member(members, key, value) == members.update(i, (key, value)),
    decreases members.len(),
{
    if i > 0 {
        assert(members.take(i)[0].0 != key);
        let rest = members.drop_first();
        assert(rest.take(i - 1) =~= members.take(i).drop_first());
        lemma_with_member_present(rest, key, value, i - 1);
    }
    assert(with_member(members, key, value) =~= members.update(i, (key, value)));
}

/// Sets a member of an object: in its place if the key is there, else at the end.
pub fn put_member(members: &mut Vec<(String, Json)>, key: String, value: Json)
    ensures
        member_trees(final(members)@) == with_member(member_trees(old(members)@), key@, value@),
{
    let ghost before = member_trees(members@);
    let mut i: usize = 0;
    while i < members.len()
        invariant
            i <= members@.len(),
            members@ == old(members)@,
            before == member_trees(members@),
            lacks_key(before.take(i as int), key@),
        decreases members@.len() - i,
    {
        assert(before[i as int].0 == members@[i as int].0@);
        if same_text(members[i].0.as_str(), key.as_str()) {
            proof {
                lemma_with_member_present(before, key@, value@, i as int);
            }
            members.set(i, (key, value));
            assert(member_trees(members@) =~= before.update(i as int, (key@, value@)));
            return;
        }
        assert(before.take(i + 1) =~= before.take(i as int).push(before[i as int]));
        i += 1;
    }
    proof {
        assert(before.take(i as int) =~= before);
        lemma_with_member_absent(before, key@, value@);
    }
    members.push((key, value));
    assert(member_trees(members@) =~= before.push((key@, value@)));
}

impl JsonNumber {
    /// The integer that the number is stored as, if it is stored as one.
    pub open spec fn integer(self) -> Option<int> {
        match self {
            JsonNumber::PosInt(n) => Some(n as int),
            JsonNumber::NegInt(n) => Some(n as int),
            JsonNumber::Float(_) => None,
        }
    }
}

/// An integer keeps its value as a JSON number, and is kept among the non-negative ones just where
/// it is one of them.
pub proof fn law_integers_keep_their_value(n: i64)
    ensures
        JsonNumber::of_int(n).integer() == Some(n as int),
        JsonNumber::of_int(n).i64_value() == Some(n),
        JsonNumber::of_int(n) is PosInt <==> n >= 0,
        JsonNumber::of_int(n).u64_value() is Some <==> n >= 0,
{
}

/// A JSON number is read as an `i64` just where it is stored as an integer that fits, and as a `u64`
/// just where it is stored as a non-negative integer. The value is the same either way.
pub proof fn law_numbers_are_read_as_stored(number: JsonNumber)
    ensures
        number.i64_value() is Some <==> (number.integer() matches Some(n) && i64::MIN <= n
            <= i64::MAX),
        number.i64_value() matches Some(i) ==> number.integer() == Some(i as int),
        number.u64_value() is Some <==> number is PosInt,
        number.u64_value() matches Some(u) ==> number.integer() == Some(u as int),
{
}

/// An object stands for a blob just where it is `{"__bin__": N}`, and each index has one such
/// object.
pub proof fn law_placeholders(members: Seq<(Seq<char>, JsonTree)>, index: u64)
    ensures
        placeholder_index(members) == Some(index) <==> JsonTree::Object(members)
            == placeholder_tree(index),
        placeholder_tree(index) matches JsonTree::Object(own) && own.len() == 1 && own[0].0
            == "__bin__"@ && own[0].1 == JsonTree::Number(JsonNumber::PosInt(index)),
{
    if placeholder_index(members) == Some(index) {
        assert(members =~= seq![(PLACEHOLDER_BIN@, members[0].1)]);
    }
}

/// Setting a member leaves every other member as it was and where it was. The member is then there
/// with its new value, in the place of the first one with its key, or at the end if there was none.
pub proof fn law_set_member(
    members: Seq<(Seq<char>, JsonTree)>,
    key: Seq<char>,
    value: JsonTree,
    at: int,
)
    requires
        0 <= at <= members.len(),
        lacks_key(members.take(at), key),
        at < members.len() ==> members[at].0 == key,
    ensures
        ({
            let after = with_member(members, key, value);
            &&& after.len() == (if at < members.len() {
                members.len()
            } else {
                members.len() + 1
            })
            &&& after[at] == (key, value)
            &&& forall|i: int| 0 <= i < members.len() && i != at ==> #[trigger] after[i] == members[i]
        }),
{
    if at < members.len() {
        lemma_with_member_present(members, key, value, at);
    } else {
        assert(members.take(at) =~= members);
        lemma_with_member_absent(members, key, value);
    }
}

/// The tree of a JSON value holds what the value holds: the same truth values, numbers and texts,
/// and the trees of the items and members, in order.
pub proof fn law_json_tree_holds_the_value(json: Json)
    ensures
        match (json, json@) {
            (Json::Null, JsonTree::Null) => true,
            (Json::Bool(a), JsonTree::Bool(b)) => a == b,
            (Json::Number(a), JsonTree::Number(b)) => a == b,
            (Json::String(a), JsonTree::String(b)) => a@ == b,
            (Json::Array(a), JsonTree::Array(b)) => a@.len() == b.len() && forall|i: int|
                0 <= i < b.len() ==> #[trigger] b[i] == a@[i]@,
            (Json::Object(a), JsonTree::Object(b)) => a@.len() == b.len() && forall|i: int|
                0 <= i < b.len() ==> #[trigger] b[i] == (a@[i].0@, a@[i].1@),
            _ => false,
        },
{
    broadcast use {lemma_array_tree, lemma_object_tree};

}

} // verus!
