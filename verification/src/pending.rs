//! A table from identifiers to handles, kept in a hash map.

use vstd::prelude::*;

verus! {

/// A `hashbrown::HashMap` from strings to 64-bit handles. Verified code
/// reaches it only through the methods below, each of which makes one call
/// of the map.
#[verifier::external_body]
pub struct IdTable {
    entries: hashbrown::HashMap<String, u64>,
}

/// What a table holds: the handle under each identifier.
pub uninterp spec fn table_entries(t: IdTable) -> Map<Seq<char>, u64>;

/// Whether `pairs` lists what `entries` holds, each entry once, in some
/// order.
pub open spec fn is_listing(pairs: Seq<(String, u64)>, entries: Map<Seq<char>, u64>) -> bool {
    &&& forall|i: int|
        0 <= i < pairs.len() ==> entries.contains_key((#[trigger] pairs[i]).0@) && entries[pairs[i].0@]
            == pairs[i].1
    &&& forall|i: int, j: int|
        0 <= i < j < pairs.len() ==> (#[trigger] pairs[i]).0@ != (#[trigger] pairs[j]).0@
    &&& forall|k: Seq<char>|
        entries.contains_key(k) ==> exists|i: int|
            0 <= i < pairs.len() && (#[trigger] pairs[i]).0@ == k
}

impl IdTable {
    /// `hashbrown::HashMap::new`: a table that holds nothing.
    #[verifier::external_body]
    pub(crate) fn new() -> (t: IdTable)
        ensures
            table_entries(t) =~= Map::empty(),
    {
        IdTable { entries: hashbrown::HashMap::new() }
    }

    /// `hashbrown::HashMap::get`: the handle under `id`, if there is one.
    #[verifier::external_body]
    pub(crate) fn get(&self, id: &str) -> (r: Option<u64>)
        ensures
            r == (if table_entries(*self).contains_key(id@) {
                Some(table_entries(*self)[id@])
            } else {
                None
            }),
    {
        self.entries.get(id).copied()
    }

    /// `hashbrown::HashMap::insert`: puts `handle` under `id`, and returns
    /// the handle that was there before, if there was one.
    #[verifier::external_body]
    pub(crate) fn insert(&mut self, id: String, handle: u64) -> (r: Option<u64>)
        ensures
            table_entries(*final(self)) == table_entries(*old(self)).insert(id@, handle),
            r == (if table_entries(*old(self)).contains_key(id@) {
                Some(table_entries(*old(self))[id@])
            } else {
                None
            }),
    {
        self.entries.insert(id, handle)
    }

    /// `hashbrown::HashMap::remove`: takes out what is under `id`, and returns
    /// the handle that was there, if there was one.
    #[verifier::external_body]
    pub(crate) fn remove(&mut self, id: &str) -> (r: Option<u64>)
        ensures
            table_entries(*final(self)) == table_entries(*old(self)).remove(id@),
            r == (if table_entries(*old(self)).contains_key(id@) {
                Some(table_entries(*old(self))[id@])
            } else {
                None
            }),
    {
        self.entries.remove(id)
    }

    /// `hashbrown::HashMap::drain`, collected: empties the table and returns
    /// every entry it held, once each, in an order that is not fixed.
    #[verifier::external_body]
    pub(crate) fn take_all(&mut self) -> (r: Vec<(String, u64)>)
        ensures
            table_entries(*final(self)) =~= Map::empty(),
            is_listing(r@, table_entries(*old(self))),
    {
        self.entries.drain().collect()
    }
}

} // verus!
