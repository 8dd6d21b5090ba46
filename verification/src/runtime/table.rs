//! A hash table from names to handles.

use vstd::prelude::*;

verus! {

/// A `hashbrown::HashMap` from names to handles. What a handle stands for is the caller's to know.
#[verifier::external_body]
pub struct HandleTable {
    map: hashbrown::HashMap<String, u64>,
}

/// What a table holds.
pub uninterp spec fn table_entries(table: HandleTable) -> Map<Seq<char>, u64>;

impl View for HandleTable {
    type V = Map<Seq<char>, u64>;

    open spec fn view(&self) -> Map<Seq<char>, u64> {
        table_entries(*self)
    }
}

/// The list holds each entry of the table once, in some order.
pub open spec fn lists_entries(list: Seq<(String, u64)>, entries: Map<Seq<char>, u64>) -> bool {
    &&& forall|i: int|
        0 <= i < list.len() ==> entries.contains_key((#[trigger] list[i]).0@)
            && entries[list[i].0@] == list[i].1
    &&& forall|k: Seq<char>| #[trigger]
        entries.contains_key(k) ==> exists|i: int|
            0 <= i < list.len() && (#[trigger] list[i]).0@ == k
    &&& forall|i: int, j: int|
        0 <= i < j < list.len() ==> (#[trigger] list[i]).0@ != (#[trigger] list[j]).0@
}

impl HandleTable {
    /// `hashbrown::HashMap::new`: an empty table.
    #[verifier::external_body]
    pub(crate) fn new() -> (t: HandleTable)
        ensures
            table_entries(t).dom() == Set::<Seq<char>>::empty(),
    {
        HandleTable { map: hashbrown::HashMap::new() }
    }

    /// `hashbrown::HashMap::insert`: the name has the handle from then on, whether or not it had
    /// one before; other names keep theirs.
    #[verifier::external_body]
    pub(crate) fn insert(&mut self, name: String, handle: u64)
        ensures
            table_entries(*final(self)) == table_entries(*old(self)).insert(name@, handle),
    {
        self.map.insert(name, handle);
    }

    /// `hashbrown::HashMap::get`: the handle of a name, if the table has the name.
    #[verifier::external_body]
    pub(crate) fn get(&self, name: &str) -> (r: Option<u64>)
        ensures
            r == (if table_entries(*self).contains_key(name@) {
                Some(table_entries(*self)[name@])
            } else {
                None
            }),
    {
        self.map.get(name).copied()
    }

    /// `hashbrown::HashMap::contains_key`: whether the table has the name.
    #[verifier::external_body]
    pub(crate) fn contains_key(&self, name: &str) -> (r: bool)
        ensures
            r == table_entries(*self).contains_key(name@),
    {
        self.map.contains_key(name)
    }

    /// `hashbrown::HashMap::iter`: every entry once. The order is not said: it is arbitrary.
    #[verifier::external_body]
    pub(crate) fn entries(&self) -> (r: Vec<(String, u64)>)
        ensures
            lists_entries(r@, table_entries(*self)),
    {
        self.map.iter().map(|(name, handle)| (name.clone(), *handle)).collect()
    }
}

} // verus!
