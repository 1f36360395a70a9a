//! Identities: of a slot among all slots, and of a worker among all workers.

use vstd::prelude::*;

verus! {

/// Names one slot of the whole database: the group of queries, the query
/// within the group, and the key within the query's table.
#[derive(Clone, Copy, Debug, PartialEq, Eq, Structural, Hash)]
pub struct DatabaseKeyIndex {
    pub group_index: u16,
    pub query_index: u16,
    pub key_index: u32,
}

impl DatabaseKeyIndex {
    /// The slot of key `key_index` in query `query_index` of group
    /// `group_index`.
    pub fn new(group_index: u16, query_index: u16, key_index: u32) -> (k: DatabaseKeyIndex)
        ensures
            k.group_index == group_index,
            k.query_index == query_index,
            k.key_index == key_index,
    {
        DatabaseKeyIndex { group_index, query_index, key_index }
    }

    /// The group the slot's query belongs to.
    pub fn group_index(self) -> (g: u16)
        ensures
            g == self.group_index,
    {
        self.group_index
    }

    /// The slot's query within its group.
    pub fn query_index(self) -> (q: u16)
        ensures
            q == self.query_index,
    {
        self.query_index
    }

    /// The slot's key within its query.
    pub fn key_index(self) -> (k: u32)
        ensures
            k == self.key_index,
    {
        self.key_index
    }
}

/// Names one worker: the writer, or one of the snapshots taken from it.
#[derive(Clone, Copy, Debug, PartialEq, Eq, Structural, Hash)]
pub struct RuntimeId {
    pub counter: usize,
}

/// Whether `key` occurs in `keys`.
pub fn contains_key(keys: &Vec<DatabaseKeyIndex>, key: DatabaseKeyIndex) -> (found: bool)
    ensures
        found == keys@.contains(key),
{
    let mut i: usize = 0;
    while i < keys.len()
        invariant
            i <= keys.len(),
            forall|j: int| 0 <= j < i ==> keys@[j] != key,
        decreases keys.len() - i,
    {
        if keys[i] == key {
            return true;
        }
        i += 1;
    }
    false
}

/// A copy of `keys`.
pub fn copy_keys(keys: &Vec<DatabaseKeyIndex>) -> (copy: Vec<DatabaseKeyIndex>)
    ensures
        copy@ == keys@,
{
    let mut copy: Vec<DatabaseKeyIndex> = Vec::new();
    let mut i: usize = 0;
    while i < keys.len()
        invariant
            i <= keys.len(),
            copy@ == keys@.take(i as int),
        decreases keys.len() - i,
    {
        copy.push(keys[i]);
        assert(keys@.take(i + 1) == keys@.take(i as int).push(keys@[i as int]));
        i += 1;
    }
    assert(keys@.take(keys.len() as int) == keys@);
    copy
}

} // verus!
