//! Interning: giving each key a small number, once and for all.

use vstd::prelude::*;
use crate::durability::Durability;
use crate::query_group::same_text;
use crate::revision::Revision;
use crate::stamped::StampedValue;

verus! {

/// One interned key, and the revision in which it was interned.
#[derive(Debug)]
pub struct InternSlot {
    pub key: String,
    pub interned_at: Revision,
}

/// The keys that were interned; the number of a key is its place.  The
/// query that interns and the query that looks up share the table.
#[derive(Debug)]
pub struct InternTable {
    /// The group the interning query belongs to.
    pub group_index: u16,
    /// The interning query within its group.
    pub query_index: u16,
    pub slots: Vec<InternSlot>,
}

/// The most keys a table holds: as many as 32 bits can number.
pub const MAX_INTERNED: usize = 0xffff_ffff;

impl InternTable {
    /// The interned keys, by their numbers.
    pub open spec fn keys(self) -> Seq<Seq<char>> {
        Seq::new(self.slots@.len(), |i: int| self.slots@[i].key@)
    }

    /// The revisions in which the keys were interned, by their numbers.
    pub open spec fn interned_at(self) -> Seq<Revision> {
        Seq::new(self.slots@.len(), |i: int| self.slots@[i].interned_at)
    }

    /// No key has two numbers, no key was interned after `now`, and every
    /// number fits in 32 bits.
    pub open spec fn wf(self, now: Revision) -> bool {
        &&& self.keys().no_duplicates()
        &&& self.slots@.len() <= MAX_INTERNED
        &&& forall|i: int| 0 <= i < self.slots@.len() ==> (#[trigger] self.interned_at()[i])@ <= now@
    }

    /// An empty table for the query `query_index` of the group
    /// `group_index`.
    pub fn new(group_index: u16, query_index: u16) -> (table: InternTable)
        ensures
            table.group_index == group_index,
            table.query_index == query_index,
            table.keys() == Seq::<Seq<char>>::empty(),
            forall|now: Revision| table.wf(now),
    {
        let table = InternTable { group_index, query_index, slots: Vec::new() };
        assert(table.keys() =~= Seq::<Seq<char>>::empty());
        table
    }

    /// How many keys are interned.
    pub fn len(&self) -> (n: usize)
        ensures
            n == self.keys().len(),
    {
        self.slots.len()
    }

    /// The number of `key`, if it is interned.
    pub fn find(&self, key: &str) -> (id: Option<u32>)
        requires
            self.slots@.len() <= MAX_INTERNED,
        ensures
            match id {
                Some(id) => id < self.keys().len() && self.keys()[id as int] == key@,
                None => !self.keys().contains(key@),
            },
    {
        let mut i: usize = 0;
        while i < self.slots.len()
            invariant
                i <= self.slots@.len(),
                self.slots@.len() <= MAX_INTERNED,
                forall|j: int| 0 <= j < i ==> self.keys()[j] != key@,
            decreases self.slots@.len() - i,
        {
            if same_text(self.slots[i].key.as_str(), key) {
                return Some(i as u32);
            }
            i += 1;
        }
        None
    }

    /// Interns `key` in revision `now`.  A key that is interned already keeps
    /// its number, and the table stays as it is; a new key gets the next
    /// number.  The number comes stamped with the highest durability and
    /// with the revision in which the key was interned.  Nothing is interned
    /// once the table is full.
    pub fn intern(&mut self, key: &str, now: Revision) -> (id: Option<StampedValue<u32>>)
        requires
            old(self).wf(now),
        ensures
            final(self).wf(now),
            final(self).group_index == old(self).group_index,
            final(self).query_index == old(self).query_index,
            old(self).keys().contains(key@) ==> {
                &&& final(self).keys() == old(self).keys()
                &&& final(self).interned_at() == old(self).interned_at()
                &&& id matches Some(stamped)
                &&& stamped.value < old(self).keys().len()
                &&& old(self).keys()[stamped.value as int] == key@
                &&& stamped.durability == Durability::HIGH
                &&& stamped.changed_at == old(self).interned_at()[stamped.value as int]
            },
            !old(self).keys().contains(key@) && old(self).keys().len() < MAX_INTERNED ==> {
                &&& final(self).keys() == old(self).keys().push(key@)
                &&& final(self).interned_at() == old(self).interned_at().push(now)
                &&& id == Some(StampedValue { value: old(self).keys().len() as u32, durability: Durability::HIGH, changed_at: now })
            },
            !old(self).keys().contains(key@) && old(self).keys().len() >= MAX_INTERNED ==> {
                &&& final(self).keys() == old(self).keys()
                &&& final(self).interned_at() == old(self).interned_at()
                &&& id is None
            },
    {
        match self.find(key) {
            Some(id) => {
                let changed_at = self.slots[id as usize].interned_at;
                assert(self.interned_at()[id as int] == changed_at);
                Some(StampedValue { value: id, durability: Durability::max_durability(), changed_at })
            },
            None => {
                if self.slots.len() >= MAX_INTERNED {
                    return None;
                }
                let id = self.slots.len() as u32;
                self.slots.push(InternSlot { key: key.to_owned(), interned_at: now });
                proof {
                    assert(self.keys() =~= old(self).keys().push(key@));
                    assert(self.interned_at() =~= old(self).interned_at().push(now));
                    assert forall|i: int, j: int| 0 <= i < self.keys().len() && 0 <= j < self.keys().len() && i != j implies self.keys()[i]
                        != self.keys()[j] by {
                        if i < old(self).keys().len() {
                            assert(old(self).keys().contains(old(self).keys()[i]));
                        }
                        if j < old(self).keys().len() {
                            assert(old(self).keys().contains(old(self).keys()[j]));
                        }
                    }
                    assert forall|i: int| 0 <= i < self.slots@.len() implies (#[trigger] self.interned_at()[i])@ <= now@ by {
                        if i < old(self).slots@.len() {
                            assert(old(self).interned_at()[i]@ <= now@);
                        }
                    }
                }
                Some(StampedValue { value: id, durability: Durability::max_durability(), changed_at: now })
            },
        }
    }

    /// The key that was given the number `id`, stamped with the highest
    /// durability and with the revision in which it was interned; `None` if
    /// no key has that number.
    pub fn lookup(&self, id: u32) -> (key: Option<StampedValue<String>>)
        ensures
            match key {
                Some(stamped) => {
                    &&& id < self.keys().len()
                    &&& stamped.value@ == self.keys()[id as int]
                    &&& stamped.durability == Durability::HIGH
                    &&& stamped.changed_at == self.interned_at()[id as int]
                },
                None => id >= self.keys().len(),
            },
    {
        let place = id as usize;
        if place < self.slots.len() {
            Some(
                StampedValue {
                    value: self.slots[place].key.clone(),
                    durability: Durability::max_durability(),
                    changed_at: self.slots[place].interned_at,
                },
            )
        } else {
            None
        }
    }

    /// Whether what the number `id` stands for changed after `revision`:
    /// whether its key was interned after `revision`.  A number that no key
    /// has is taken to have changed.
    pub fn maybe_changed_since(&self, id: u32, revision: Revision) -> (changed: bool)
        ensures
            changed == if id < self.keys().len() {
                self.interned_at()[id as int]@ > revision@
            } else {
                true
            },
    {
        let place = id as usize;
        if place < self.slots.len() {
            self.slots[place].interned_at.gt(revision)
        } else {
            true
        }
    }
}

/// Interning and looking up undo each other, and numbers are given in the
/// order of interning: in a table that is in order, a key has at most one
/// number, and a key that is interned anew gets the number that follows the
/// numbers given so far.
pub proof fn lemma_numbers_are_unique(table: InternTable, now: Revision, a: int, b: int)
    requires
        table.wf(now),
        0 <= a < table.keys().len(),
        0 <= b < table.keys().len(),
        table.keys()[a] == table.keys()[b],
    ensures
        a == b,
{
}

} // verus!
