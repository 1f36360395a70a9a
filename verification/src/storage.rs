//! The table of the slots of one derived query.

use vstd::prelude::*;
use crate::key::DatabaseKeyIndex;
use crate::lru::{Lru, LruView};
use crate::revision::Revision;
use crate::slot::{option_cloned, MemoizationPolicy, Slot, SlotView, StateView, TableEntry};
use crate::sweep::SweepStrategy;

verus! {

/// The slots of one derived query, one for each key that was asked for; the
/// slot of key number `i` is the `i`th.
pub struct DerivedStorage<V> {
    /// The group the query belongs to.
    pub group_index: u16,
    /// The query within its group.
    pub query_index: u16,
    /// Whether the slots keep values.
    pub policy: MemoizationPolicy,
    /// The slots, by the number of their key.
    pub slots: Vec<Slot<V>>,
    /// Which slots were read least recently.
    pub lru: Lru,
}

/// The slots of a table as mathematical values.
pub open spec fn slots_view<V>(slots: Seq<Slot<V>>) -> Seq<SlotView<V>> {
    Seq::new(slots.len(), |i: int| slots[i]@)
}

impl<V> DerivedStorage<V> {
    /// The slots as mathematical values.
    pub open spec fn slots(self) -> Seq<SlotView<V>> {
        slots_view(self.slots@)
    }

    /// The name of the slot of key number `key_index`.
    pub open spec fn key_of(self, key_index: int) -> DatabaseKeyIndex {
        DatabaseKeyIndex { group_index: self.group_index, query_index: self.query_index, key_index: key_index as u32 }
    }

    /// What the slot of key number `key_index` holds; nothing, if the key
    /// was never asked for.
    pub open spec fn state_of(self, key_index: int) -> StateView<V> {
        if 0 <= key_index < self.slots().len() {
            self.slots()[key_index].state
        } else {
            StateView::NotComputed
        }
    }

    /// Every slot is in order for `now`, is named after its place and keeps
    /// values as the table says; the list of recent reads is in order and
    /// names slots of the table.
    pub open spec fn wf(self, now: Revision) -> bool {
        &&& self.slots().len() <= 0x1_0000_0000
        &&& forall|i: int| 0 <= i < self.slots().len() ==> {
            &&& (#[trigger] self.slots()[i]).state.wf(now)
            &&& self.slots()[i].key == self.key_of(i)
            &&& self.slots()[i].policy == self.policy
        }
        &&& self.lru.wf()
        &&& forall|k: u32| #[trigger] self.lru@.order.contains(k) ==> k < self.slots().len()
    }

    /// The table of the query `query_index` of the group `group_index`,
    /// with no slots yet and no bound on the values kept.
    pub fn new(group_index: u16, query_index: u16, policy: MemoizationPolicy) -> (storage: DerivedStorage<V>)
        ensures
            storage.group_index == group_index,
            storage.query_index == query_index,
            storage.policy == policy,
            storage.slots() == Seq::<SlotView<V>>::empty(),
            storage.lru@ == (LruView { capacity: 0, order: Seq::empty() }),
            forall|now: Revision| storage.wf(now),
    {
        let storage = DerivedStorage { group_index, query_index, policy, slots: Vec::new(), lru: Lru::new() };
        assert(storage.slots() =~= Seq::<SlotView<V>>::empty());
        storage
    }

    /// How many keys have a slot.
    pub fn len(&self) -> (n: usize)
        ensures
            n == self.slots().len(),
    {
        self.slots.len()
    }

    /// The name of the slot of key number `key_index`.
    pub fn database_key(&self, key_index: u32) -> (key: DatabaseKeyIndex)
        ensures
            key == self.key_of(key_index as int),
    {
        DatabaseKeyIndex::new(self.group_index, self.query_index, key_index)
    }

    /// Makes sure that key number `key_index` has a slot, and returns the
    /// slot's place in the table.  The slots that are made are empty; the
    /// slots that were there stay as they are.
    pub fn ensure_slot(&mut self, key_index: u32) -> (place: usize)
        requires
            old(self).slots().len() <= 0x1_0000_0000,
        ensures
            place == key_index,
            final(self).slots().len() == if old(self).slots().len() > key_index {
                old(self).slots().len() as int
            } else {
                key_index + 1
            },
            forall|i: int| 0 <= i < old(self).slots().len() ==> #[trigger] final(self).slots()[i] == old(self).slots()[i],
            forall|i: int|
                old(self).slots().len() <= i < final(self).slots().len() ==> #[trigger] final(self).slots()[i] == (SlotView {
                    key: old(self).key_of(i),
                    state: StateView::<V>::NotComputed,
                    policy: old(self).policy,
                }),
            final(self).group_index == old(self).group_index,
            final(self).query_index == old(self).query_index,
            final(self).policy == old(self).policy,
            final(self).lru == old(self).lru,
            forall|now: Revision| old(self).wf(now) ==> final(self).wf(now),
            forall|i: int| final(self).state_of(i) == old(self).state_of(i),
    {
        let place = key_index as usize;
        while self.slots.len() <= place
            invariant
                place == key_index,
                old(self).slots().len() <= self.slots().len() <= 0x1_0000_0000,
                self.slots().len() <= if old(self).slots().len() > key_index {
                    old(self).slots().len() as int
                } else {
                    key_index + 1
                },
                forall|i: int| 0 <= i < old(self).slots().len() ==> #[trigger] self.slots()[i] == old(self).slots()[i],
                forall|i: int|
                    old(self).slots().len() <= i < self.slots().len() ==> #[trigger] self.slots()[i] == (SlotView {
                        key: old(self).key_of(i),
                        state: StateView::<V>::NotComputed,
                        policy: old(self).policy,
                    }),
                self.group_index == old(self).group_index,
                self.query_index == old(self).query_index,
                self.policy == old(self).policy,
                self.lru == old(self).lru,
            decreases 0x1_0000_0000 - self.slots().len(),
        {
            let ghost before = self.slots();
            let next = self.slots.len() as u32;
            let key = DatabaseKeyIndex::new(self.group_index, self.query_index, next);
            self.slots.push(Slot::new(key, self.policy));
            proof {
                assert forall|i: int| 0 <= i < before.len() implies #[trigger] self.slots()[i] == before[i] by {}
            }
        }
        proof {
            assert forall|now: Revision| old(self).wf(now) implies self.wf(now) by {
                assert forall|i: int| 0 <= i < self.slots().len() implies {
                    &&& (#[trigger] self.slots()[i]).state.wf(now)
                    &&& self.slots()[i].key == self.key_of(i)
                    &&& self.slots()[i].policy == self.policy
                } by {
                    if i < old(self).slots().len() {
                        assert(self.slots()[i] == old(self).slots()[i]);
                    }
                }
            }
            assert forall|i: int| self.state_of(i) == old(self).state_of(i) by {
                if 0 <= i < old(self).slots().len() {
                    assert(self.slots()[i] == old(self).slots()[i]);
                }
            }
        }
        place
    }

    /// Bounds the number of values the table keeps to `capacity`, or lifts
    /// the bound if `capacity` is 0.  The record of recent reads begins anew.
    pub fn set_lru_capacity(&mut self, capacity: usize)
        ensures
            final(self).lru@ == (LruView { capacity: capacity as nat, order: Seq::empty() }),
            final(self).slots() == old(self).slots(),
            final(self).group_index == old(self).group_index,
            final(self).query_index == old(self).query_index,
            final(self).policy == old(self).policy,
            forall|now: Revision| old(self).wf(now) ==> final(self).wf(now),
    {
        let _ = self.lru.set_lru_capacity(capacity);
    }

    /// Records that the value of key number `key_index` was read.  If the
    /// table now keeps more values than it is to, the value that was read
    /// least recently is evicted from its slot.
    pub fn record_use(&mut self, key_index: u32, now: Revision)
        requires
            old(self).wf(now),
            key_index < old(self).slots().len(),
        ensures
            final(self).wf(now),
            final(self).lru@ == old(self).lru@.record_use(key_index),
            final(self).slots().len() == old(self).slots().len(),
            forall|i: int|
                0 <= i < old(self).slots().len() ==> #[trigger] final(self).slots()[i] == if old(self).lru@.evicted_by(key_index)
                    == Some(i as u32) {
                    SlotView { state: old(self).slots()[i].state.evict(), ..old(self).slots()[i] }
                } else {
                    old(self).slots()[i]
                },
            final(self).group_index == old(self).group_index,
            final(self).query_index == old(self).query_index,
            final(self).policy == old(self).policy,
    {
        if let Some(evicted) = self.lru.record_use(key_index) {
            assert(old(self).lru@.order.contains(evicted));
            let place = evicted as usize;
            self.slots[place].evict();
            proof {
                assert forall|i: int| 0 <= i < old(self).slots().len() implies #[trigger] self.slots()[i] == if old(
                    self,
                ).lru@.evicted_by(key_index) == Some(i as u32) {
                    SlotView { state: old(self).slots()[i].state.evict(), ..old(self).slots()[i] }
                } else {
                    old(self).slots()[i]
                } by {}
                assert forall|i: int| 0 <= i < self.slots().len() implies {
                    &&& (#[trigger] self.slots()[i]).state.wf(now)
                    &&& self.slots()[i].key == self.key_of(i)
                    &&& self.slots()[i].policy == self.policy
                } by {
                    assert(old(self).slots()[i].state.wf(now));
                }
            }
        } else {
            proof {
                assert forall|i: int| 0 <= i < self.slots().len() implies {
                    &&& (#[trigger] self.slots()[i]).state.wf(now)
                    &&& self.slots()[i].key == self.key_of(i)
                    &&& self.slots()[i].policy == self.policy
                } by {
                    assert(old(self).slots()[i].state.wf(now));
                }
            }
        }
    }

    /// Sweeps every slot of the table with `strategy`, in revision
    /// `revision_now`.
    pub fn sweep(&mut self, revision_now: Revision, strategy: SweepStrategy)
        requires
            old(self).wf(revision_now),
        ensures
            final(self).wf(revision_now),
            final(self).slots().len() == old(self).slots().len(),
            forall|i: int|
                0 <= i < old(self).slots().len() ==> #[trigger] final(self).slots()[i] == (SlotView {
                    state: old(self).slots()[i].state.sweep(revision_now, strategy),
                    ..old(self).slots()[i]
                }),
            final(self).group_index == old(self).group_index,
            final(self).query_index == old(self).query_index,
            final(self).policy == old(self).policy,
            final(self).lru == old(self).lru,
    {
        let n = self.slots.len();
        let mut i: usize = 0;
        while i < n
            invariant
                i <= n,
                n == self.slots().len(),
                n == old(self).slots().len(),
                forall|j: int| 0 <= j < n ==> #[trigger] self.slots()[j] == if j < i {
                    SlotView { state: old(self).slots()[j].state.sweep(revision_now, strategy), ..old(self).slots()[j] }
                } else {
                    old(self).slots()[j]
                },
                forall|j: int| 0 <= j < n ==> (#[trigger] old(self).slots()[j]).state.wf(revision_now),
                self.group_index == old(self).group_index,
                self.query_index == old(self).query_index,
                self.policy == old(self).policy,
                self.lru == old(self).lru,
            decreases n - i,
        {
            let ghost before = self.slots();
            proof {
                assert(before[i as int] == old(self).slots()[i as int]);
                assert(old(self).slots()[i as int].state.wf(revision_now));
            }
            self.slots[i].sweep(revision_now, strategy);
            proof {
                assert forall|j: int| 0 <= j < n implies #[trigger] self.slots()[j] == if j < i + 1 {
                    SlotView { state: old(self).slots()[j].state.sweep(revision_now, strategy), ..old(self).slots()[j] }
                } else {
                    old(self).slots()[j]
                } by {
                    if j != i {
                        assert(self.slots()[j] == before[j]);
                    }
                }
            }
            i += 1;
        }
        proof {
            assert forall|i: int| 0 <= i < self.slots().len() implies {
                &&& (#[trigger] self.slots()[i]).state.wf(revision_now)
                &&& self.slots()[i].key == self.key_of(i)
                &&& self.slots()[i].policy == self.policy
            } by {
                assert(old(self).slots()[i].state.wf(revision_now));
            }
        }
    }

    /// The table as a list: for each key that has a slot, in the order of
    /// their numbers, what [`Slot::as_table_entry`] gives.
    pub fn entries(&self) -> (entries: Vec<Option<TableEntry<V>>>) where V: Clone
        ensures
            entries@.len() == self.slots().len(),
            forall|i: int|
                0 <= i < self.slots().len() ==> {
                    &&& self.slots()[i].state is NotComputed <==> (#[trigger] entries@[i]) is None
                    &&& entries@[i] is Some ==> entries@[i]->0.key == self.slots()[i].key
                    &&& self.slots()[i].state is InProgress ==> entries@[i]->0.value is None
                    &&& self.slots()[i].state matches StateView::Memoized(memo) ==> option_cloned(
                        memo.value,
                        entries@[i]->0.value,
                    )
                },
    {
        let mut entries: Vec<Option<TableEntry<V>>> = Vec::new();
        let mut i: usize = 0;
        while i < self.slots.len()
            invariant
                i <= self.slots().len(),
                entries@.len() == i,
                forall|j: int|
                    0 <= j < i ==> {
                        &&& self.slots()[j].state is NotComputed <==> (#[trigger] entries@[j]) is None
                        &&& entries@[j] is Some ==> entries@[j]->0.key == self.slots()[j].key
                        &&& self.slots()[j].state is InProgress ==> entries@[j]->0.value is None
                        &&& self.slots()[j].state matches StateView::Memoized(memo) ==> option_cloned(
                            memo.value,
                            entries@[j]->0.value,
                        )
                    },
            decreases self.slots().len() - i,
        {
            let entry = self.slots[i].as_table_entry();
            assert(self.slots()[i as int] == self.slots@[i as int]@);
            entries.push(entry);
            i += 1;
        }
        entries
    }

    /// Empties the table: no key has a slot any more.
    pub fn purge(&mut self)
        ensures
            final(self).slots() == Seq::<SlotView<V>>::empty(),
            final(self).lru@ == (LruView { order: Seq::empty(), ..old(self).lru@ }),
            final(self).group_index == old(self).group_index,
            final(self).query_index == old(self).query_index,
            final(self).policy == old(self).policy,
            forall|now: Revision| final(self).wf(now),
    {
        self.slots = Vec::new();
        let capacity = self.lru.capacity;
        let _ = self.lru.set_lru_capacity(capacity);
        assert(self.slots() =~= Seq::<SlotView<V>>::empty());
    }
}

} // verus!
