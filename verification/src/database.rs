//! A database worked by one worker: the inputs, the tables of the derived
//! queries, and the worker's runtime, kept in order together.

use vstd::prelude::*;
use crate::active_query::{FrameView, Read};
use crate::query_stack::{innermost, is_active, keys_from, mark_from, with_top};
use crate::slot::QueryState;
use crate::stamped::CycleError;
use crate::active_query::ComputedQueryResult;
use crate::changed::{ChangeProbe, ChangeProbeView};
use crate::memo::{MemoView, Validation, ValidationView};
use crate::read::{
    published, read_begun, same_as_before, settled_value, PanicGuard, Publication, ReadStep, Ready, Wake,
};
use crate::wait_graph::without_waiters_of;
use vstd::std_specs::cmp::PartialEqSpec;
use crate::durability::Durability;
use crate::event::{Event, EventKind};
use crate::input::{InputSlot, UnsetInput};
use crate::key::{DatabaseKeyIndex, RuntimeId};
use crate::revision::Revision;
use crate::runtime::{Runtime, WriteStep};
use crate::slot::{MemoizationPolicy, SlotView, StateView};
use crate::stamped::StampedValue;
use crate::storage::DerivedStorage;
use crate::sweep::SweepStrategy;
use crate::wait_graph::{Target, WaitGraph};

verus! {

/// The group of the inputs; they are the keys of its query 0.
pub const INPUTS: u16 = 0;

/// The group of the derived queries.
pub const DERIVED: u16 = 1;

/// A database worked by one worker.
pub struct Database<V> {
    /// The worker's runtime.
    pub runtime: Runtime,
    /// Who waits for whom: with one worker, nobody.
    pub graph: WaitGraph,
    /// The inputs, by the number of their key.
    pub inputs: Vec<InputSlot<V>>,
    /// The tables of the derived queries, by the number of the query.
    pub tables: Vec<DerivedStorage<V>>,
}

/// The name of input number `input`.
pub open spec fn input_key(input: int) -> DatabaseKeyIndex {
    DatabaseKeyIndex { group_index: INPUTS, query_index: 0, key_index: input as u32 }
}

impl<V> Database<V> {
    /// The current revision.
    pub open spec fn now(self) -> Revision {
        self.runtime.registry.current
    }

    /// Whether `key` names a slot of a derived query of this database.
    pub open spec fn is_derived(self, key: DatabaseKeyIndex) -> bool {
        key.group_index == DERIVED && key.query_index < self.tables@.len()
    }

    /// What the slot `key` holds; nothing, if it was never asked for or is
    /// not a slot of a derived query.
    pub open spec fn state_of(self, key: DatabaseKeyIndex) -> StateView<V> {
        if self.is_derived(key) {
            self.tables@[key.query_index as int].state_of(key.key_index as int)
        } else {
            StateView::NotComputed
        }
    }

    /// The slot `key` of a derived query, as a mathematical value.
    pub open spec fn slot_of(self, key: DatabaseKeyIndex) -> SlotView<V>
        recommends
            self.is_derived(key),
    {
        SlotView { key, state: self.state_of(key), policy: self.tables@[key.query_index as int].policy }
    }

    /// The inputs and the tables are named after their places and in order
    /// for the current revision.
    pub open spec fn storage_wf(self) -> bool {
        &&& self.inputs@.len() <= 0xffff_ffff
        &&& forall|i: int| 0 <= i < self.inputs@.len() ==> {
            &&& (#[trigger] self.inputs@[i]).key == input_key(i)
            &&& self.inputs@[i].wf(self.now())
        }
        &&& self.tables@.len() <= 0x1_0000
        &&& forall|q: int| 0 <= q < self.tables@.len() ==> {
            &&& (#[trigger] self.tables@[q]).wf(self.now())
            &&& self.tables@[q].group_index == DERIVED
            &&& self.tables@[q].query_index == q
        }
    }

    /// Every slot that is being computed is being computed by the worker of
    /// this database, and nobody waits for it.
    pub open spec fn owned(self) -> bool {
        forall|key: DatabaseKeyIndex| #[trigger]
            self.state_of(key) is InProgress ==> self.state_of(key) == (StateView::<V>::InProgress {
                id: self.runtime.id,
                waiting: Seq::empty(),
            })
    }

    /// No query that is running read a value that changed after the current
    /// revision.
    pub open spec fn frames_in_time(self) -> bool {
        forall|i: int| 0 <= i < self.runtime.stack@.len() ==> (#[trigger] self.runtime.stack@[i]).changed_at@ <= self.now()@
    }

    /// Everything is in order: the runtime, the inputs and the tables for
    /// the current revision, the queries that run; nobody waits, no snapshot
    /// is in use, and every slot being computed is the worker's own.
    pub open spec fn wf(self) -> bool {
        &&& self.runtime.wf()
        &&& self.runtime.snapshots == 0
        &&& self.graph.wf()
        &&& self.graph@ == Map::<RuntimeId, Target>::empty()
        &&& self.storage_wf()
        &&& self.owned()
        &&& self.frames_in_time()
    }

    /// An empty database at the first revision.
    pub fn new() -> (db: Database<V>)
        ensures
            db.wf(),
            db.now()@ == 1,
            db.inputs@.len() == 0,
            db.tables@.len() == 0,
            db.runtime.stack@.len() == 0,
    {
        Database { runtime: Runtime::new(), graph: WaitGraph::new(), inputs: Vec::new(), tables: Vec::new() }
    }

    /// The current revision.
    pub fn current_revision(&self) -> (now: Revision)
        ensures
            now == self.now(),
    {
        self.runtime.current_revision()
    }

    /// Declares one more input, not set yet, and returns its number; `None`
    /// if the numbers have run out.
    pub fn add_input(&mut self) -> (input: Option<u32>)
        requires
            old(self).wf(),
        ensures
            final(self).wf(),
            final(self).runtime == old(self).runtime,
            final(self).tables == old(self).tables,
            match input {
                Some(n) => {
                    &&& n == old(self).inputs@.len()
                    &&& final(self).inputs@ == old(self).inputs@.push(InputSlot { key: input_key(n as int), stamped_value: None })
                },
                None => old(self).inputs@.len() == 0xffff_ffff && final(self).inputs == old(self).inputs,
            },
    {
        if self.inputs.len() >= 0xffff_ffff {
            return None;
        }
        let n = self.inputs.len() as u32;
        self.inputs.push(InputSlot::new(DatabaseKeyIndex::new(INPUTS, 0, n)));
        proof {
            assert(self.inputs@[n as int].stamped_value is None);
            assert forall|key: DatabaseKeyIndex| self.state_of(key) == old(self).state_of(key) by {}
        }
        Some(n)
    }

    /// Declares one more derived query, whose slots keep values or not as
    /// `policy` says, and returns its number; `None` if the numbers have run
    /// out.
    pub fn add_query(&mut self, policy: MemoizationPolicy) -> (query: Option<u16>)
        requires
            old(self).wf(),
        ensures
            final(self).wf(),
            final(self).runtime == old(self).runtime,
            final(self).inputs == old(self).inputs,
            match query {
                Some(q) => {
                    &&& q == old(self).tables@.len()
                    &&& final(self).tables@.len() == q + 1
                    &&& final(self).tables@.take(q as int) == old(self).tables@
                    &&& final(self).tables@[q as int].policy == policy
                    &&& final(self).tables@[q as int].slots().len() == 0
                },
                None => old(self).tables@.len() == 0x1_0000 && final(self).tables == old(self).tables,
            },
            forall|key: DatabaseKeyIndex| final(self).state_of(key) == old(self).state_of(key),
    {
        if self.tables.len() >= 0x1_0000 {
            return None;
        }
        let q = self.tables.len() as u16;
        self.tables.push(DerivedStorage::new(DERIVED, q, policy));
        proof {
            assert(self.tables@.take(q as int) =~= old(self).tables@);
            assert forall|key: DatabaseKeyIndex| self.state_of(key) == old(self).state_of(key) by {
                if old(self).is_derived(key) {
                    assert(self.tables@[key.query_index as int] == old(self).tables@[key.query_index as int]);
                }
            }
        }
        Some(q)
    }

    /// Sets input number `input` to `value`, as [`InputSlot::set`] says: a
    /// new revision begins, and the input holds `value`, of class
    /// `durability`, changed in the new revision.  Nothing else changes.  If the database
    /// has no such input, nothing at all changes and `value` comes back.
    pub fn set_input(&mut self, input: u32, value: V, durability: Durability) -> (r: Result<Event, V>)
        requires
            old(self).wf(),
            old(self).now()@ < u64::MAX,
        ensures
            final(self).wf(),
            final(self).tables == old(self).tables,
            final(self).runtime.stack == old(self).runtime.stack,
            final(self).inputs@.len() == old(self).inputs@.len(),
            if input < old(self).inputs@.len() {
                &&& r == Ok::<Event, V>(
                    Event { runtime_id: old(self).runtime.id, kind: EventKind::DidChangeInput { database_key: input_key(input as int) } },
                )
                &&& final(self).runtime.registry == old(self).runtime.registry.spec_bump(
                    old(self).inputs@[input as int].change_class(durability),
                )
                &&& final(self).inputs@ == old(self).inputs@.update(
                    input as int,
                    InputSlot {
                        key: input_key(input as int),
                        stamped_value: Some(StampedValue { value, durability, changed_at: final(self).now() }),
                    },
                )
            } else {
                &&& r == Err::<Event, V>(value)
                &&& final(self).runtime == old(self).runtime
                &&& final(self).inputs == old(self).inputs
            },
    {
        let place = input as usize;
        if place >= self.inputs.len() {
            return Err(value);
        }
        let key = self.inputs[place].database_key();
        let ghost before = *self;
        match self.runtime.set_input(&mut self.inputs[place], value, durability) {
            WriteStep::Done(_) => {
                proof {
                    before.lemma_later(*self);
                    assert(self.inputs@ =~= old(self).inputs@.update(
                        input as int,
                        InputSlot {
                            key: input_key(input as int),
                            stamped_value: Some(StampedValue { value, durability, changed_at: self.now() }),
                        },
                    ));
                    assert forall|i: int| 0 <= i < self.inputs@.len() implies {
                        &&& (#[trigger] self.inputs@[i]).key == input_key(i)
                        &&& self.inputs@[i].wf(self.now())
                    } by {
                        if i != input {
                            assert(old(self).inputs@[i].wf(old(self).now()));
                        }
                    }
                }
                Ok(Event { runtime_id: self.runtime.id(), kind: EventKind::DidChangeInput { database_key: key } })
            },
            WriteStep::Blocked(value) => Err(value),
        }
    }

    /// Begins a new revision in which a value of class `durability` changed
    /// outside the database.  Nothing else changes.
    pub fn synthetic_write(&mut self, durability: Durability) -> (revision: Revision)
        requires
            old(self).wf(),
            old(self).now()@ < u64::MAX,
        ensures
            final(self).wf(),
            final(self).runtime.registry == old(self).runtime.registry.spec_bump(durability),
            revision == final(self).now(),
            final(self).tables == old(self).tables,
            final(self).inputs == old(self).inputs,
            final(self).runtime.stack == old(self).runtime.stack,
    {
        let ghost before = *self;
        let _ = self.runtime.synthetic_write(durability);
        proof {
            before.lemma_later(*self);
            assert forall|i: int| 0 <= i < self.inputs@.len() implies {
                &&& (#[trigger] self.inputs@[i]).key == input_key(i)
                &&& self.inputs@[i].wf(self.now())
            } by {
                assert(old(self).inputs@[i].wf(old(self).now()));
            }
        }
        self.runtime.current_revision()
    }

    /// Reads input number `input` for the query that is running, if one is:
    /// the read is recorded for that query.  Fails if the input was never
    /// set, or the database has no such input.
    pub fn input(&mut self, input: u32) -> (r: Result<StampedValue<V>, UnsetInput>) where V: Clone
        requires
            old(self).wf(),
        ensures
            final(self).wf(),
            final(self).tables == old(self).tables,
            final(self).inputs == old(self).inputs,
            final(self).runtime.registry == old(self).runtime.registry,
            if input < old(self).inputs@.len() && old(self).inputs@[input as int].stamped_value is Some {
                let stamped = old(self).inputs@[input as int].stamped_value->0;
                &&& r matches Ok(copy)
                &&& stamped.cloned_as(copy)
                &&& final(self).runtime.stack@ == with_top(
                    old(self).runtime.stack@,
                    old(self).runtime.stack@.last().add_read(
                        Read {
                            input: input_key(input as int),
                            durability: stamped.durability,
                            changed_at: stamped.changed_at,
                        },
                    ),
                )
            } else {
                &&& r == Err::<StampedValue<V>, UnsetInput>(UnsetInput { key: input_key(input as int) })
                &&& final(self).runtime.stack == old(self).runtime.stack
            },
    {
        let place = input as usize;
        if place >= self.inputs.len() {
            return Err(UnsetInput { key: DatabaseKeyIndex::new(INPUTS, 0, input) });
        }
        match self.inputs[place].read() {
            Ok(stamped) => {
                assert(old(self).inputs@[input as int].wf(old(self).now()));
                self.runtime.report_query_read(self.inputs[place].database_key(), stamped.durability, stamped.changed_at);
                proof {
                    assert forall|key: DatabaseKeyIndex| self.state_of(key) == old(self).state_of(key) by {}
                    assert forall|i: int| 0 <= i < self.runtime.stack@.len() implies (#[trigger] self.runtime.stack@[i]).changed_at@
                        <= self.now()@ by {
                        assert(old(self).runtime.stack@[i].changed_at@ <= old(self).now()@);
                    }
                }
                Ok(stamped)
            },
            Err(e) => Err(e),
        }
    }

    /// Sweeps every slot of every table with `strategy`.
    pub fn sweep(&mut self, strategy: SweepStrategy)
        requires
            old(self).wf(),
        ensures
            final(self).wf(),
            final(self).runtime == old(self).runtime,
            final(self).inputs == old(self).inputs,
            final(self).tables@.len() == old(self).tables@.len(),
            forall|key: DatabaseKeyIndex| #[trigger]
                final(self).state_of(key) == old(self).state_of(key).sweep(old(self).now(), strategy),
            forall|q: int|
                0 <= q < old(self).tables@.len() ==> (#[trigger] final(self).tables@[q]).policy == old(self).tables@[q].policy
                    && final(self).tables@[q].slots().len() == old(self).tables@[q].slots().len(),
    {
        let now = self.runtime.current_revision();
        let n = self.tables.len();
        let mut q: usize = 0;
        while q < n
            invariant
                q <= n,
                n == self.tables@.len(),
                n == old(self).tables@.len(),
                old(self).wf(),
                now == old(self).now(),
                self.runtime == old(self).runtime,
                self.inputs == old(self).inputs,
                self.graph == old(self).graph,
                forall|p: int| q <= p < n ==> #[trigger] self.tables@[p] == old(self).tables@[p],
                forall|p: int|
                    0 <= p < q ==> {
                        &&& (#[trigger] self.tables@[p]).wf(now)
                        &&& self.tables@[p].group_index == DERIVED
                        &&& self.tables@[p].query_index == p
                        &&& self.tables@[p].policy == old(self).tables@[p].policy
                        &&& self.tables@[p].slots().len() == old(self).tables@[p].slots().len()
                        &&& forall|k: int|
                            0 <= k < old(self).tables@[p].slots().len() ==> (#[trigger] self.tables@[p].slots()[k]).state == old(
                                self,
                            ).tables@[p].slots()[k].state.sweep(now, strategy)
                    },
            decreases n - q,
        {
            assert(old(self).tables@[q as int].wf(now));
            self.tables[q].sweep(now, strategy);
            q += 1;
        }
        proof {
            assert forall|key: DatabaseKeyIndex| #[trigger]
                self.state_of(key) == old(self).state_of(key).sweep(old(self).now(), strategy) by {
                if old(self).is_derived(key) {
                    let p = key.query_index as int;
                    let k = key.key_index as int;
                    if k < old(self).tables@[p].slots().len() {
                        assert(self.tables@[p].slots()[k].state == old(self).tables@[p].slots()[k].state.sweep(now, strategy));
                    }
                }
            }
            assert forall|key: DatabaseKeyIndex| #[trigger]
                self.state_of(key) is InProgress implies self.state_of(key) == (StateView::<V>::InProgress {
                    id: self.runtime.id,
                    waiting: Seq::empty(),
                }) by {
                assert(old(self).state_of(key) is InProgress);
            }
        }
    }

    /// Makes sure that the slot `key` of a derived query exists, and returns
    /// its place in its table.  No slot that was there changes.
    fn slot_place(&mut self, key: DatabaseKeyIndex) -> (place: usize)
        requires
            old(self).wf(),
            old(self).is_derived(key),
        ensures
            final(self).wf(),
            place == key.key_index,
            place < final(self).tables@[key.query_index as int].slots().len(),
            final(self).tables@[key.query_index as int].slots()[place as int].key == key,
            final(self).tables@[key.query_index as int].slots()[place as int].state == old(self).state_of(key),
            final(self).tables@[key.query_index as int].policy == old(self).tables@[key.query_index as int].policy,
            forall|k: DatabaseKeyIndex| final(self).state_of(k) == old(self).state_of(k),
            final(self).runtime == old(self).runtime,
            final(self).graph == old(self).graph,
            final(self).inputs == old(self).inputs,
            final(self).tables@.len() == old(self).tables@.len(),
            final(self).is_derived(key),
    {
        let q = key.query_index() as usize;
        proof {
            assert(old(self).tables@[q as int].wf(old(self).now()));
        }
        let place = self.tables[q].ensure_slot(key.key_index());
        proof {
            assert forall|k: DatabaseKeyIndex| self.state_of(k) == old(self).state_of(k) by {
                if old(self).is_derived(k) && k.query_index != key.query_index {
                    assert(self.tables@[k.query_index as int] == old(self).tables@[k.query_index as int]);
                }
            }
            assert forall|p: int| 0 <= p < self.tables@.len() implies {
                &&& (#[trigger] self.tables@[p]).wf(self.now())
                &&& self.tables@[p].group_index == DERIVED
                &&& self.tables@[p].query_index == p
            } by {
                if p != q {
                    assert(self.tables@[p] == old(self).tables@[p]);
                }
            }
            assert forall|i: int| 0 <= i < self.inputs@.len() implies {
                &&& (#[trigger] self.inputs@[i]).key == input_key(i)
                &&& self.inputs@[i].wf(self.now())
            } by {
                assert(old(self).inputs@[i].wf(old(self).now()));
            }
            assert(self.owned()) by {
                assert forall|k: DatabaseKeyIndex| #[trigger]
                    self.state_of(k) is InProgress implies self.state_of(k) == (StateView::<V>::InProgress {
                        id: self.runtime.id,
                        waiting: Seq::empty(),
                    }) by {
                    assert(old(self).state_of(k) is InProgress);
                }
            }
            assert(self.frames_in_time()) by {
                assert forall|i: int| 0 <= i < self.runtime.stack@.len() implies (#[trigger] self.runtime.stack@[i]).changed_at@
                    <= self.now()@ by {
                    assert(old(self).runtime.stack@[i].changed_at@ <= old(self).now()@);
                }
            }
            assert(self.state_of(key) == self.tables@[q as int].slots()[place as int].state);
        }
        place
    }

    /// A database stays in order when one slot of a derived query changes
    /// into a state that is in order, and the queries that run stay in time:
    /// `self` is the database before, `after` the database after, in which
    /// the slot `key` alone differs, besides the queries that run.
    pub proof fn lemma_one_slot(self, after: Database<V>, key: DatabaseKeyIndex)
        requires
            self.wf(),
            self.is_derived(key),
            key.key_index < self.tables@[key.query_index as int].slots().len(),
            after.runtime.wf(),
            after.runtime.snapshots == 0,
            after.runtime.registry == self.runtime.registry,
            after.runtime.id == self.runtime.id,
            after.frames_in_time(),
            after.graph.wf(),
            after.graph@ == Map::<RuntimeId, Target>::empty(),
            after.inputs == self.inputs,
            after.tables@.len() == self.tables@.len(),
            forall|p: int| 0 <= p < self.tables@.len() && p != key.query_index ==> #[trigger] after.tables@[p] == self.tables@[p],
            ({
                let before = self.tables@[key.query_index as int];
                let table = after.tables@[key.query_index as int];
                let slot = table.slots()[key.key_index as int];
                &&& table.group_index == before.group_index
                &&& table.query_index == before.query_index
                &&& table.policy == before.policy
                &&& table.lru == before.lru
                &&& table.slots().len() == before.slots().len()
                &&& forall|i: int|
                    0 <= i < before.slots().len() && i != key.key_index ==> #[trigger] table.slots()[i] == before.slots()[i]
                &&& slot.key == key
                &&& slot.policy == before.policy
                &&& slot.state.wf(self.now())
                &&& slot.state is InProgress ==> slot.state == (StateView::<V>::InProgress {
                    id: self.runtime.id,
                    waiting: Seq::empty(),
                })
            }),
        ensures
            after.wf(),
            after.is_derived(key),
            forall|k: DatabaseKeyIndex| k != key ==> #[trigger] after.state_of(k) == self.state_of(k),
            after.state_of(key) == after.tables@[key.query_index as int].slots()[key.key_index as int].state,
            after.slot_of(key).policy == self.slot_of(key).policy,
    {
        let q = key.query_index as int;
        assert forall|k: DatabaseKeyIndex| k != key implies #[trigger] after.state_of(k) == self.state_of(k) by {
            if self.is_derived(k) {
                if k.query_index == key.query_index {
                    if k.key_index < self.tables@[q].slots().len() {
                        assert(after.tables@[q].slots()[k.key_index as int] == self.tables@[q].slots()[k.key_index as int]);
                    }
                } else {
                    assert(after.tables@[k.query_index as int] == self.tables@[k.query_index as int]);
                }
            }
        }
        assert(self.tables@[q].wf(self.now()));
        assert(after.tables@[q].wf(after.now())) by {
            assert forall|i: int| 0 <= i < after.tables@[q].slots().len() implies {
                &&& (#[trigger] after.tables@[q].slots()[i]).state.wf(after.now())
                &&& after.tables@[q].slots()[i].key == after.tables@[q].key_of(i)
                &&& after.tables@[q].slots()[i].policy == after.tables@[q].policy
            } by {
                assert(self.tables@[q].slots()[i].state.wf(self.now()));
                assert(self.tables@[q].slots()[i].key == self.tables@[q].key_of(i));
            }
        }
        assert forall|p: int| 0 <= p < after.tables@.len() implies {
            &&& (#[trigger] after.tables@[p]).wf(after.now())
            &&& after.tables@[p].group_index == DERIVED
            &&& after.tables@[p].query_index == p
        } by {
            if p != q {
                assert(after.tables@[p] == self.tables@[p]);
            }
            assert(self.tables@[p].wf(self.now()));
        }
        assert forall|i: int| 0 <= i < after.inputs@.len() implies {
            &&& (#[trigger] after.inputs@[i]).key == input_key(i)
            &&& after.inputs@[i].wf(after.now())
        } by {
            assert(self.inputs@[i].wf(self.now()));
        }
        assert forall|k: DatabaseKeyIndex| #[trigger]
            after.state_of(k) is InProgress implies after.state_of(k) == (StateView::<V>::InProgress {
                id: after.runtime.id,
                waiting: Seq::empty(),
            }) by {
            if k != key {
                assert(after.state_of(k) == self.state_of(k));
                assert(self.state_of(k) is InProgress);
            }
        }
    }

    /// The queries that run stay in time when the top one reads a value that
    /// changed no later than now.
    pub proof fn lemma_read_in_time(self, after: Database<V>, read: Read)
        requires
            self.frames_in_time(),
            read.changed_at@ <= self.now()@,
            after.now() == self.now(),
            after.runtime.stack@ == with_top(self.runtime.stack@, self.runtime.stack@.last().add_read(read)),
        ensures
            after.frames_in_time(),
    {
        assert forall|i: int| 0 <= i < after.runtime.stack@.len() implies (#[trigger] after.runtime.stack@[i]).changed_at@
            <= after.now()@ by {
            assert(self.runtime.stack@[i].changed_at@ <= self.now()@);
        }
    }

    /// Begins a read of the slot `key` of a derived query, as
    /// [`Slot::read`] does; where the slot has a value that is good for the
    /// current revision and `report` is set, the read is recorded for the
    /// query that is running.
    fn begin_read(&mut self, key: DatabaseKeyIndex, report: bool) -> (step: ReadStep<V>) where V: Clone
        requires
            old(self).wf(),
            old(self).is_derived(key),
        ensures
            final(self).wf(),
            old(self).read_begins(key, report, step, *final(self)),
    {
        let q = key.query_index() as usize;
        let id = self.runtime.id();
        let now = self.runtime.current_revision();
        let place = self.slot_place(key);
        let ghost mid = *self;
        proof {
            assert(old(self).state_of(key) is InProgress ==> old(self).state_of(key)->InProgress_waiting.len() == 0);
            assert(mid.tables@[q as int].wf(now));
            assert(mid.tables@[q as int].slots()[place as int].state.wf(now));
        }
        let step = if report {
            self.tables[q].slots[place].read(&mut self.graph, id, now)
        } else {
            self.tables[q].slots[place].read_upgrade(&mut self.graph, id, now)
        };
        let ghost after = *self;
        proof {
            assert(after.graph@ =~= Map::<RuntimeId, Target>::empty());
            mid.lemma_one_slot(after, key);
        }
        if report {
            if let ReadStep::Ready(Ready::Value(value)) = &step {
                self.runtime.report_query_read(key, value.durability, value.changed_at);
                proof {
                    after.lemma_read_in_time(
                        *self,
                        Read { input: key, durability: value.durability, changed_at: value.changed_at },
                    );
                    after.lemma_one_slot(*self, key);
                }
            }
        }
        step
    }

    /// The value of the slot `key` is asked for, by the query that is
    /// running or from outside.  The read begins as [`read_begun`] says, with
    /// nobody to wait for: the value is there, or the slot is the worker's own
    /// and the read closes a cycle, or the worker becomes the owner and has
    /// to bring the slot up to date.  A value that is there is recorded as
    /// read by the query that is running.  `None` if `key` names no slot of a
    /// derived query; nothing changes then.
    pub fn fetch(&mut self, key: DatabaseKeyIndex) -> (step: Option<ReadStep<V>>) where V: Clone
        requires
            old(self).wf(),
        ensures
            final(self).wf(),
            match step {
                Some(step) => old(self).is_derived(key) && old(self).read_begins(key, true, step, *final(self)),
                None => !old(self).is_derived(key) && *final(self) == *old(self),
            },
    {
        if key.group_index() != DERIVED || key.query_index() as usize >= self.tables.len() {
            return None;
        }
        Some(self.begin_read(key, true))
    }

    /// The second phase of a read, for an asker that wants to know whether
    /// the slot `key` changed and was told to read it: as [`Database::fetch`],
    /// but nothing is recorded for the query that is running.
    pub fn read_upgrade(&mut self, key: DatabaseKeyIndex) -> (step: Option<ReadStep<V>>) where V: Clone
        requires
            old(self).wf(),
        ensures
            final(self).wf(),
            match step {
                Some(step) => old(self).is_derived(key) && old(self).read_begins(key, false, step, *final(self)),
                None => !old(self).is_derived(key) && *final(self) == *old(self),
            },
    {
        if key.group_index() != DERIVED || key.query_index() as usize >= self.tables.len() {
            return None;
        }
        Some(self.begin_read(key, false))
    }

    /// How a read of the slot `key` begins: `self` is the database before,
    /// `after` the database after.  The slot goes through what
    /// [`read_begun`] says, with this worker as the reader and nobody
    /// waiting for anybody; no other slot changes, nor the inputs, nor the
    /// revisions.  If the value was there and the read is to be recorded, the
    /// query that is running has read it; otherwise the running queries are
    /// as they were.
    pub open spec fn read_begins(self, key: DatabaseKeyIndex, report: bool, step: ReadStep<V>, after: Database<V>) -> bool where
        V: Clone,
     {
        &&& read_begun(
            self.slot_of(key),
            Map::<RuntimeId, Target>::empty(),
            self.runtime.id,
            self.now(),
            step,
            after.slot_of(key),
            Map::<RuntimeId, Target>::empty(),
        )
        &&& forall|k: DatabaseKeyIndex| k != key ==> #[trigger] after.state_of(k) == self.state_of(k)
        &&& after.inputs == self.inputs
        &&& after.runtime.registry == self.runtime.registry
        &&& after.runtime.id == self.runtime.id
        &&& after.tables@.len() == self.tables@.len()
        &&& after.runtime.stack@ == match step {
            ReadStep::Ready(Ready::Value(value)) => if report {
                with_top(
                    self.runtime.stack@,
                    self.runtime.stack@.last().add_read(
                        Read { input: key, durability: value.durability, changed_at: value.changed_at },
                    ),
                )
            } else {
                self.runtime.stack@
            },
            _ => self.runtime.stack@,
        }
    }

    /// Whether `key` names an input of this database.
    pub open spec fn is_input(self, key: DatabaseKeyIndex) -> bool {
        key.group_index == INPUTS && key.query_index == 0 && key.key_index < self.inputs@.len()
    }

    /// What asking whether `key` changed after `revision` comes to: `self`
    /// is the database before, `after` the database after.  An input knows
    /// when it was set.  A slot of a derived query answers as
    /// [`Slot::maybe_changed_since`] says, with nobody to wait for: a slot
    /// that is empty or being computed counts as changed, and a memo answers
    /// as [`MemoView::changed_since`] says and is marked as
    /// [`StateView::asked`] says.  What the database does not know counts as
    /// changed.  Nothing else changes.
    pub open spec fn changes(self, key: DatabaseKeyIndex, revision: Revision, probe: ChangeProbeView, after: Database<V>) -> bool {
        &&& after.runtime == self.runtime
        &&& after.inputs == self.inputs
        &&& forall|k: DatabaseKeyIndex| k != key ==> #[trigger] after.state_of(k) == self.state_of(k)
        &&& if self.is_input(key) {
            &&& probe == ChangeProbeView::Answer(self.inputs@[key.key_index as int].spec_maybe_changed_since(revision))
            &&& after.state_of(key) == self.state_of(key)
        } else {
            match self.state_of(key) {
                StateView::Memoized(memo) => {
                    &&& probe == memo.changed_since(self.runtime.registry, revision, self.now())
                    &&& after.state_of(key) == self.state_of(key).asked(self.runtime.registry, self.now())
                },
                _ => {
                    &&& probe == ChangeProbeView::Answer(true)
                    &&& after.state_of(key) == self.state_of(key)
                },
            }
        }
    }

    /// Asks whether the value of `key` changed after `revision`; see
    /// [`Database::changes`].
    pub fn changed(&mut self, key: DatabaseKeyIndex, revision: Revision) -> (probe: ChangeProbe)
        requires
            old(self).wf(),
        ensures
            final(self).wf(),
            old(self).changes(key, revision, probe@, *final(self)),
            probe@ matches ChangeProbeView::CheckInputs(walk) ==> walk.wf(),
    {
        if key.group_index() == INPUTS {
            if key.query_index() == 0 && (key.key_index() as usize) < self.inputs.len() {
                return ChangeProbe::Answer(self.inputs[key.key_index() as usize].maybe_changed_since(revision));
            }
            return ChangeProbe::Answer(true);
        }
        if key.group_index() != DERIVED || key.query_index() as usize >= self.tables.len() {
            return ChangeProbe::Answer(true);
        }
        let q = key.query_index() as usize;
        let id = self.runtime.id();
        let now = self.runtime.current_revision();
        let registry = self.runtime.registry;
        let place = self.slot_place(key);
        let ghost mid = *self;
        proof {
            assert(old(self).state_of(key) is InProgress ==> old(self).state_of(key)->InProgress_waiting.len() == 0);
            assert(mid.tables@[q as int].wf(now));
            assert(mid.tables@[q as int].slots()[place as int].state.wf(now));
        }
        let probe = self.tables[q].slots[place].maybe_changed_since(&mut self.graph, id, &registry, revision, now);
        proof {
            assert(self.graph@ =~= Map::<RuntimeId, Target>::empty());
            mid.lemma_one_slot(*self, key);
        }
        probe
    }

    /// An asker that went through the inputs of the slot `key`, and found
    /// that one of them changed (`maybe_changed`) or that none did, settles
    /// the slot as [`StateView::settle`] says and gets its answer.  Nothing
    /// else changes, and nothing at all if `key` names no slot of a derived
    /// query.
    pub fn settle(&mut self, key: DatabaseKeyIndex, maybe_changed: bool) -> (changed: bool)
        requires
            old(self).wf(),
        ensures
            final(self).wf(),
            changed == maybe_changed,
            final(self).runtime == old(self).runtime,
            final(self).inputs == old(self).inputs,
            forall|k: DatabaseKeyIndex| k != key ==> #[trigger] final(self).state_of(k) == old(self).state_of(k),
            final(self).state_of(key) == old(self).state_of(key).settle(old(self).now(), maybe_changed),
    {
        if key.group_index() != DERIVED || key.query_index() as usize >= self.tables.len() {
            return maybe_changed;
        }
        let q = key.query_index() as usize;
        let now = self.runtime.current_revision();
        let place = self.slot_place(key);
        let ghost mid = *self;
        proof {
            assert(mid.tables@[q as int].wf(now));
            assert(mid.tables@[q as int].slots()[place as int].state.wf(now));
        }
        let changed = self.tables[q].slots[place].maybe_changed_since_settle(now, maybe_changed);
        proof {
            mid.lemma_one_slot(*self, key);
        }
        changed
    }

    /// Looks at the memo that the slot of `guard` had and says whether its
    /// value stands, is lost, or hangs on its inputs; see
    /// [`MemoView::validate`].
    pub fn validate(&self, guard: &PanicGuard<V>) -> (validation: Validation)
        ensures
            validation@ == match guard.memo_view() {
                Some(memo) => memo.validate(self.runtime.registry),
                None => ValidationView::Stale,
            },
            validation@ matches ValidationView::CheckInputs(walk) ==> walk.wf(),
    {
        guard.validate(&self.runtime.registry)
    }

    /// The worker begins to run the query of the slot `key`.
    pub fn begin_execute(&mut self, key: DatabaseKeyIndex)
        requires
            old(self).wf(),
        ensures
            final(self).wf(),
            final(self).runtime.stack@ == old(self).runtime.stack@.push(FrameView::fresh(key, old(self).now())),
            final(self).runtime.registry == old(self).runtime.registry,
            final(self).tables == old(self).tables,
            final(self).inputs == old(self).inputs,
    {
        self.runtime.prepare_query_execute(key);
        proof {
            assert forall|k: DatabaseKeyIndex| self.state_of(k) == old(self).state_of(k) by {}
            assert forall|i: int| 0 <= i < self.runtime.stack@.len() implies (#[trigger] self.runtime.stack@[i]).changed_at@
                <= self.now()@ by {
                if i < old(self).runtime.stack@.len() {
                    assert(old(self).runtime.stack@[i].changed_at@ <= old(self).now()@);
                }
            }
            old(self).lemma_same_storage(*self);
        }
    }

    /// The query that runs on top came to `value`: its record becomes the
    /// result, which changed no later than now and lists no input twice.
    pub fn end_execute(&mut self, value: V) -> (result: ComputedQueryResult<V>)
        requires
            old(self).wf(),
            old(self).runtime.stack@.len() > 0,
        ensures
            final(self).wf(),
            result.completes(old(self).runtime.stack@.last(), value),
            result.changed_at@ <= old(self).now()@,
            result.spec_dependencies() matches Some(inputs) ==> inputs.no_duplicates(),
            final(self).runtime.stack@ == old(self).runtime.stack@.drop_last(),
            final(self).runtime.registry == old(self).runtime.registry,
            final(self).tables == old(self).tables,
            final(self).inputs == old(self).inputs,
    {
        proof {
            let top = old(self).runtime.stack@.len() - 1;
            assert(old(self).runtime.stack@[top].changed_at@ <= old(self).now()@);
            assert(old(self).runtime.stack@[top].wf());
        }
        let result = self.runtime.complete_query(value);
        proof {
            assert forall|k: DatabaseKeyIndex| self.state_of(k) == old(self).state_of(k) by {}
            assert forall|i: int| 0 <= i < self.runtime.stack@.len() implies (#[trigger] self.runtime.stack@[i]).changed_at@
                <= self.now()@ by {
                assert(old(self).runtime.stack@[i].changed_at@ <= old(self).now()@);
            }
            old(self).lemma_same_storage(*self);
        }
        result
    }

    /// Whether the slot of `guard` is a slot of this database that the
    /// worker owns through `guard`, and the memo that `guard` holds is in
    /// order.
    pub open spec fn owns(self, guard: PanicGuard<V>) -> bool {
        &&& self.is_derived(guard.database_key)
        &&& self.state_of(guard.database_key) is InProgress
        &&& guard.id == self.runtime.id
        &&& guard.memo_view() matches Some(memo) ==> memo.wf(self.now())
    }

    /// The owner found that the value the slot of `guard` had still stands;
    /// see [`Slot::publish_validated`].  No other slot changes.
    pub fn publish_validated(&mut self, guard: PanicGuard<V>) -> (done: Publication<V>) where V: Clone
        requires
            old(self).wf(),
            old(self).owns(guard),
            guard.memo_view() is Some,
            guard.memo_view()->0.value is Some,
        ensures
            final(self).wf(),
            final(self).runtime == old(self).runtime,
            final(self).inputs == old(self).inputs,
            forall|k: DatabaseKeyIndex| k != guard.database_key ==> #[trigger] final(self).state_of(k) == old(self).state_of(k),
            final(self).state_of(guard.database_key) == StateView::Memoized(guard.memo_view()->0.verified(old(self).now())),
            done.outcome matches Ok(value) && guard.memo_view()->0.stamped().cloned_as(value),
            done.wake.waiters@.len() == 0,
            done.wake.result matches Some(result) && done.outcome->Ok_0.cloned_as(result.value) && result.cycle@.len() == 0,
            done.event == (Event {
                runtime_id: guard.id,
                kind: EventKind::DidValidateMemoizedValue { database_key: guard.database_key },
            }),
    {
        let key = guard.database_key;
        let q = key.query_index() as usize;
        let now = self.runtime.current_revision();
        let place = self.slot_place(key);
        let ghost mid = *self;
        let done = self.tables[q].slots[place].publish_validated(guard, &mut self.graph, now);
        proof {
            assert(self.graph@ =~= Map::<RuntimeId, Target>::empty());
            mid.lemma_one_slot(*self, key);
        }
        done
    }

    /// The owner ran the query of the slot of `guard`, which came to
    /// `result`; `recovered` is what the query's recovery made of the cycle
    /// the run was found on, if there was a cycle and the query has a
    /// recovery.  What happens to the slot and what the read comes to is
    /// stated by [`published`], with nobody waiting; as for
    /// [`Slot::publish_computed`], the outcome is that for the answer `==`
    /// gives on the old and the new value.  No other slot changes.
    pub fn publish_computed(&mut self, guard: PanicGuard<V>, result: ComputedQueryResult<V>, recovered: Option<V>) -> (done:
        Publication<V>) where V: Clone + PartialEq
        requires
            old(self).wf(),
            old(self).owns(guard),
            result.changed_at@ <= old(self).now()@,
            result.spec_dependencies() matches Some(inputs) ==> inputs.no_duplicates(),
        ensures
            final(self).wf(),
            final(self).runtime == old(self).runtime,
            final(self).inputs == old(self).inputs,
            forall|k: DatabaseKeyIndex| k != guard.database_key ==> #[trigger] final(self).state_of(k) == old(self).state_of(k),
            old(self).publishes(guard, result, recovered, true, *final(self), done) || old(self).publishes(
                guard,
                result,
                recovered,
                false,
                *final(self),
                done,
            ),
            V::obeys_eq_spec() ==> old(self).publishes(
                guard,
                result,
                recovered,
                same_as_before(guard.memo_view(), settled_value(result, recovered)),
                *final(self),
                done,
            ),
    {
        let key = guard.database_key;
        let q = key.query_index() as usize;
        let now = self.runtime.current_revision();
        let place = self.slot_place(key);
        let ghost mid = *self;
        let done = self.tables[q].slots[place].publish_computed(guard, &mut self.graph, result, recovered, now);
        proof {
            assert(self.graph@ =~= Map::<RuntimeId, Target>::empty());
            assert(without_waiters_of(Map::<RuntimeId, Target>::empty(), Target { key: guard.database_key, to: guard.id })
                =~= Map::<RuntimeId, Target>::empty());
            let slot = self.tables@[q as int].slots()[place as int];
            assert(slot.state.wf(now));
            mid.lemma_one_slot(*self, key);
            assert(self.slot_of(key) == slot);
            assert(old(self).slot_of(key) == mid.tables@[q as int].slots()[place as int]);
        }
        done
    }

    /// The worker gave up on the slot of `guard`, because the query
    /// panicked: the slot is left empty, whatever it held before, so that
    /// the next read computes it anew.  No other slot changes.
    pub fn abandon(&mut self, guard: PanicGuard<V>) -> (wake: Wake<V>)
        requires
            old(self).wf(),
            old(self).owns(guard),
        ensures
            final(self).wf(),
            final(self).runtime == old(self).runtime,
            final(self).inputs == old(self).inputs,
            forall|k: DatabaseKeyIndex| k != guard.database_key ==> #[trigger] final(self).state_of(k) == old(self).state_of(k),
            final(self).state_of(guard.database_key) == StateView::<V>::NotComputed,
            wake.waiters@.len() == 0,
            wake.result is None,
    {
        let key = guard.database_key;
        let q = key.query_index() as usize;
        let place = self.slot_place(key);
        let ghost mid = *self;
        let wake = guard.abandon(&mut self.tables[q].slots[place], &mut self.graph);
        proof {
            assert(self.graph@ =~= Map::<RuntimeId, Target>::empty());
            mid.lemma_one_slot(*self, key);
        }
        wake
    }

    /// The stamps under which a read of the slot `key` is recorded once the
    /// slot was brought up to date: those of its memo, if the memo was
    /// verified in the current revision.
    pub open spec fn read_of(self, key: DatabaseKeyIndex) -> Option<Read> {
        match self.state_of(key) {
            StateView::Memoized(memo) => if memo.verified_at == self.now() {
                Some(Read { input: key, durability: memo.durability, changed_at: memo.changed_at })
            } else {
                None
            },
            _ => None,
        }
    }

    /// Records, for the query that is running, that it read the slot `key`,
    /// which was just brought up to date for it.  Nothing is recorded if the
    /// slot holds no memo that was verified in the current revision.
    pub fn report_read(&mut self, key: DatabaseKeyIndex)
        requires
            old(self).wf(),
        ensures
            final(self).wf(),
            final(self).tables == old(self).tables,
            final(self).inputs == old(self).inputs,
            final(self).runtime.registry == old(self).runtime.registry,
            final(self).runtime.stack@ == match old(self).read_of(key) {
                Some(read) => with_top(old(self).runtime.stack@, old(self).runtime.stack@.last().add_read(read)),
                None => old(self).runtime.stack@,
            },
    {
        if key.group_index() != DERIVED || key.query_index() as usize >= self.tables.len() {
            return ;
        }
        let q = key.query_index() as usize;
        let place = key.key_index() as usize;
        if place >= self.tables[q].len() {
            return ;
        }
        let now = self.runtime.current_revision();
        let stamps = match &self.tables[q].slots[place].state {
            QueryState::Memoized(memo) => {
                if memo.verified_at == now {
                    Some((memo.durability, memo.changed_at))
                } else {
                    None
                }
            },
            _ => None,
        };
        proof {
            assert(self.tables@[q as int].wf(now));
            assert(self.tables@[q as int].slots()[place as int].state.wf(now));
            assert(self.state_of(key) == self.tables@[q as int].slots@[place as int]@.state);
        }
        if let Some((durability, changed_at)) = stamps {
            self.runtime.report_query_read(key, durability, changed_at);
            proof {
                old(self).lemma_read_in_time(*self, Read { input: key, durability, changed_at });
                old(self).lemma_same_storage(*self);
            }
        }
    }

    /// The query that is running read something the database cannot track.
    pub fn report_untracked_read(&mut self)
        requires
            old(self).wf(),
        ensures
            final(self).wf(),
            final(self).tables == old(self).tables,
            final(self).inputs == old(self).inputs,
            final(self).runtime.registry == old(self).runtime.registry,
            final(self).runtime.stack@ == with_top(
                old(self).runtime.stack@,
                old(self).runtime.stack@.last().add_untracked_read(old(self).now()),
            ),
    {
        self.runtime.report_untracked_read();
        proof {
            assert forall|i: int| 0 <= i < self.runtime.stack@.len() implies (#[trigger] self.runtime.stack@[i]).changed_at@
                <= self.now()@ by {
                assert(old(self).runtime.stack@[i].changed_at@ <= old(self).now()@);
            }
            old(self).lemma_same_storage(*self);
        }
    }

    /// The query that is running read outside state of the given
    /// durability.
    pub fn report_synthetic_read(&mut self, durability: Durability)
        requires
            old(self).wf(),
        ensures
            final(self).wf(),
            final(self).tables == old(self).tables,
            final(self).inputs == old(self).inputs,
            final(self).runtime.registry == old(self).runtime.registry,
            final(self).runtime.stack@ == with_top(
                old(self).runtime.stack@,
                old(self).runtime.stack@.last().add_synthetic_read(durability),
            ),
    {
        self.runtime.report_synthetic_read(durability);
        proof {
            assert forall|i: int| 0 <= i < self.runtime.stack@.len() implies (#[trigger] self.runtime.stack@[i]).changed_at@
                <= self.now()@ by {
                assert(old(self).runtime.stack@[i].changed_at@ <= old(self).now()@);
            }
            old(self).lemma_same_storage(*self);
        }
    }

    /// A read of the slot `key` closed a cycle: the worker is computing the
    /// slot itself.  If a query for `key` is running, the queries from the
    /// innermost such query inwards make the cycle and are marked with it,
    /// and the error that reports it is returned, stamped with the current
    /// revision and the highest durability.  If none is, the slot is being
    /// checked rather than run, and nothing changes.
    pub fn cycle_detected(&mut self, key: DatabaseKeyIndex) -> (err: Option<CycleError<DatabaseKeyIndex>>)
        requires
            old(self).wf(),
        ensures
            final(self).wf(),
            final(self).tables == old(self).tables,
            final(self).inputs == old(self).inputs,
            final(self).runtime.registry == old(self).runtime.registry,
            match err {
                Some(err) => {
                    &&& is_active(old(self).runtime.stack@, key)
                    &&& err.cycle@ == keys_from(old(self).runtime.stack@, innermost(old(self).runtime.stack@, key))
                    &&& err.cycle@.len() > 0
                    &&& err.changed_at == old(self).now()
                    &&& err.durability == Durability::HIGH
                    &&& final(self).runtime.stack@ == mark_from(
                        old(self).runtime.stack@,
                        innermost(old(self).runtime.stack@, key),
                        err.cycle@,
                    )
                },
                None => !is_active(old(self).runtime.stack@, key) && final(self).runtime.stack == old(self).runtime.stack,
            },
    {
        if !self.runtime.stack.is_running(key) {
            return None;
        }
        let now = self.runtime.current_revision();
        let err = self.runtime.stack.report_local_cycle(key, now);
        proof {
            assert forall|i: int| 0 <= i < self.runtime.stack@.len() implies (#[trigger] self.runtime.stack@[i]).changed_at@
                <= self.now()@ by {
                assert(old(self).runtime.stack@[i].changed_at@ <= old(self).now()@);
            }
            old(self).lemma_same_storage(*self);
        }
        Some(err)
    }

    /// What a read that ran into the cycle `err` on the slot `key` comes to,
    /// given what the recovery of the slot's query made of it: the recovered
    /// value under the stamps of the error, recorded as read by the query
    /// that is running, or the error if there was no recovery.
    pub fn cycle_recovered(&mut self, key: DatabaseKeyIndex, err: CycleError<DatabaseKeyIndex>, recovered: Option<V>) -> (r:
        Result<StampedValue<V>, CycleError<DatabaseKeyIndex>>)
        requires
            old(self).wf(),
            err.changed_at@ <= old(self).now()@,
        ensures
            final(self).wf(),
            final(self).tables == old(self).tables,
            final(self).inputs == old(self).inputs,
            final(self).runtime.registry == old(self).runtime.registry,
            match recovered {
                Some(value) => {
                    &&& r == Ok::<StampedValue<V>, CycleError<DatabaseKeyIndex>>(
                        StampedValue { value, durability: err.durability, changed_at: err.changed_at },
                    )
                    &&& final(self).runtime.stack@ == with_top(
                        old(self).runtime.stack@,
                        old(self).runtime.stack@.last().add_read(
                            Read { input: key, durability: err.durability, changed_at: err.changed_at },
                        ),
                    )
                },
                None => {
                    &&& r == Err::<StampedValue<V>, CycleError<DatabaseKeyIndex>>(err)
                    &&& final(self).runtime.stack == old(self).runtime.stack
                },
            },
    {
        if recovered.is_some() {
            self.runtime.report_query_read(key, err.durability, err.changed_at);
            proof {
                old(self).lemma_read_in_time(*self, Read { input: key, durability: err.durability, changed_at: err.changed_at });
                old(self).lemma_same_storage(*self);
            }
        }
        err.into_read_result(recovered)
    }

    /// Records that the value of the slot `key` was read, for the table's
    /// list of recent reads; if the table keeps more values than it is to,
    /// the value read least recently is evicted.  See
    /// [`DerivedStorage::record_use`].  Nothing changes for a key that has no
    /// slot.
    pub fn record_use(&mut self, key: DatabaseKeyIndex)
        requires
            old(self).wf(),
        ensures
            final(self).wf(),
            final(self).runtime == old(self).runtime,
            final(self).inputs == old(self).inputs,
            final(self).tables@.len() == old(self).tables@.len(),
            if old(self).is_derived(key) && key.key_index < old(self).tables@[key.query_index as int].slots().len() {
                let before = old(self).tables@[key.query_index as int];
                let table = final(self).tables@[key.query_index as int];
                &&& table.lru@ == before.lru@.record_use(key.key_index)
                &&& table.slots().len() == before.slots().len()
                &&& forall|i: int|
                    0 <= i < before.slots().len() ==> #[trigger] table.slots()[i] == if before.lru@.evicted_by(key.key_index) == Some(
                        i as u32,
                    ) {
                        SlotView { state: before.slots()[i].state.evict(), ..before.slots()[i] }
                    } else {
                        before.slots()[i]
                    }
                &&& forall|p: int|
                    0 <= p < old(self).tables@.len() && p != key.query_index ==> #[trigger] final(self).tables@[p] == old(
                        self,
                    ).tables@[p]
            } else {
                final(self).tables == old(self).tables
            },
    {
        if key.group_index() != DERIVED || key.query_index() as usize >= self.tables.len() {
            return ;
        }
        let q = key.query_index() as usize;
        if key.key_index() as usize >= self.tables[q].len() {
            return ;
        }
        let now = self.runtime.current_revision();
        proof {
            assert(self.tables@[q as int].wf(now));
        }
        self.tables[q].record_use(key.key_index(), now);
        proof {
            let before = old(self).tables@[q as int];
            let table = self.tables@[q as int];
            assert forall|p: int| 0 <= p < self.tables@.len() implies {
                &&& (#[trigger] self.tables@[p]).wf(self.now())
                &&& self.tables@[p].group_index == DERIVED
                &&& self.tables@[p].query_index == p
            } by {
                if p != q {
                    assert(self.tables@[p] == old(self).tables@[p]);
                }
                assert(old(self).tables@[p].wf(now));
            }
            assert forall|i: int| 0 <= i < self.inputs@.len() implies {
                &&& (#[trigger] self.inputs@[i]).key == input_key(i)
                &&& self.inputs@[i].wf(self.now())
            } by {
                assert(old(self).inputs@[i].wf(old(self).now()));
            }
            assert forall|k: DatabaseKeyIndex| #[trigger]
                self.state_of(k) is InProgress implies self.state_of(k) == (StateView::<V>::InProgress {
                    id: self.runtime.id,
                    waiting: Seq::empty(),
                }) by {
                if old(self).is_derived(k) {
                    if k.query_index == key.query_index {
                        if k.key_index < before.slots().len() {
                            assert(table.slots()[k.key_index as int].state == before.slots()[k.key_index as int].state
                                || table.slots()[k.key_index as int].state == before.slots()[k.key_index as int].state.evict());
                        }
                    } else {
                        assert(self.tables@[k.query_index as int] == old(self).tables@[k.query_index as int]);
                    }
                }
                assert(old(self).state_of(k) is InProgress);
                assert(self.state_of(k) == old(self).state_of(k));
            }
        }
    }

    /// Invalidates the slot `key` of a derived query: the slot forgets what
    /// its value was computed from, and a new revision begins in which a
    /// value as durable as the slot's memo changed (as little durable as can
    /// be, if the slot holds no memo).  Nothing else changes, and nothing at
    /// all if `key` names no slot of a derived query.
    pub fn invalidate(&mut self, key: DatabaseKeyIndex) -> (revision: Option<Revision>)
        requires
            old(self).wf(),
            old(self).now()@ < u64::MAX,
        ensures
            final(self).wf(),
            final(self).inputs == old(self).inputs,
            final(self).runtime.stack == old(self).runtime.stack,
            forall|k: DatabaseKeyIndex| k != key ==> #[trigger] final(self).state_of(k) == old(self).state_of(k),
            if old(self).is_derived(key) {
                &&& revision == Some(final(self).now())
                &&& final(self).state_of(key) == old(self).state_of(key).invalidate()
                &&& final(self).runtime.registry == old(self).runtime.registry.spec_bump(
                    match old(self).state_of(key) {
                        StateView::Memoized(memo) => memo.durability,
                        _ => Durability::LOW,
                    },
                )
            } else {
                &&& revision is None
                &&& final(self).state_of(key) == old(self).state_of(key)
                &&& final(self).runtime == old(self).runtime
            },
    {
        if key.group_index() != DERIVED || key.query_index() as usize >= self.tables.len() {
            return None;
        }
        let q = key.query_index() as usize;
        let place = self.slot_place(key);
        let ghost mid = *self;
        proof {
            assert(mid.tables@[q as int].wf(mid.now()));
            assert(mid.tables@[q as int].slots()[place as int].state.wf(mid.now()));
        }
        let durability = match self.tables[q].slots[place].invalidate() {
            Some(durability) => durability,
            None => Durability::LOW,
        };
        let ghost marked = *self;
        proof {
            mid.lemma_one_slot(marked, key);
        }
        let revision = self.runtime.registry.bump(durability);
        proof {
            marked.lemma_later(*self);
            assert forall|k: DatabaseKeyIndex| self.state_of(k) == marked.state_of(k) by {}
            assert forall|i: int| 0 <= i < self.inputs@.len() implies {
                &&& (#[trigger] self.inputs@[i]).key == input_key(i)
                &&& self.inputs@[i].wf(self.now())
            } by {
                assert(marked.inputs@[i].wf(marked.now()));
            }
        }
        Some(revision)
    }

    /// [`published`], for the slot of `guard` in this database, with nobody
    /// waiting: `self` is the database before, `after` the database after.
    pub open spec fn publishes(
        self,
        guard: PanicGuard<V>,
        result: ComputedQueryResult<V>,
        recovered: Option<V>,
        values_equal: bool,
        after: Database<V>,
        done: Publication<V>,
    ) -> bool where V: Clone {
        published(
            self.slot_of(guard.database_key),
            Map::<RuntimeId, Target>::empty(),
            guard,
            result,
            recovered,
            values_equal,
            self.now(),
            after.slot_of(guard.database_key),
            Map::<RuntimeId, Target>::empty(),
            done,
        )
    }

    /// A database whose storage is that of `self`, and whose runtime is in
    /// order and in time, is in order.
    pub proof fn lemma_same_storage(self, after: Database<V>)
        requires
            self.wf(),
            after.tables == self.tables,
            after.inputs == self.inputs,
            after.graph == self.graph,
            after.runtime.registry == self.runtime.registry,
            after.runtime.id == self.runtime.id,
            after.runtime.snapshots == 0,
            after.runtime.wf(),
            after.frames_in_time(),
        ensures
            after.wf(),
    {
        assert forall|k: DatabaseKeyIndex| after.state_of(k) == self.state_of(k) by {}
        assert forall|i: int| 0 <= i < after.inputs@.len() implies {
            &&& (#[trigger] after.inputs@[i]).key == input_key(i)
            &&& after.inputs@[i].wf(after.now())
        } by {
            assert(self.inputs@[i].wf(self.now()));
        }
        assert forall|p: int| 0 <= p < after.tables@.len() implies {
            &&& (#[trigger] after.tables@[p]).wf(after.now())
            &&& after.tables@[p].group_index == DERIVED
            &&& after.tables@[p].query_index == p
        } by {
            assert(self.tables@[p].wf(self.now()));
        }
        assert forall|k: DatabaseKeyIndex| #[trigger]
            after.state_of(k) is InProgress implies after.state_of(k) == (StateView::<V>::InProgress {
                id: after.runtime.id,
                waiting: Seq::empty(),
            }) by {
            assert(self.state_of(k) is InProgress);
        }
    }

    /// What was in order in `self` is in order in `later`, which differs
    /// only in that time has moved on.
    pub proof fn lemma_later(self, later: Database<V>)
        requires
            self.wf(),
            later.tables == self.tables,
            later.graph == self.graph,
            later.runtime.stack == self.runtime.stack,
            later.runtime.id == self.runtime.id,
            self.now()@ <= later.now()@,
        ensures
            later.owned(),
            later.frames_in_time(),
            forall|q: int| 0 <= q < later.tables@.len() ==> (#[trigger] later.tables@[q]).wf(later.now()),
    {
        assert forall|key: DatabaseKeyIndex| later.state_of(key) == self.state_of(key) by {}
        assert forall|i: int| 0 <= i < later.runtime.stack@.len() implies (#[trigger] later.runtime.stack@[i]).changed_at@
            <= later.now()@ by {
            assert(self.runtime.stack@[i].changed_at@ <= self.now()@);
        }
        assert forall|q: int| 0 <= q < later.tables@.len() implies (#[trigger] later.tables@[q]).wf(later.now()) by {
            assert(self.tables@[q].wf(self.now()));
            lemma_storage_ages(self.tables@[q], self.now(), later.now());
        }
    }
}

/// What is in order for a revision is in order for every later one.
pub proof fn lemma_storage_ages<V>(table: DerivedStorage<V>, now: Revision, later: Revision)
    requires
        table.wf(now),
        now@ <= later@,
    ensures
        table.wf(later),
{
    assert forall|i: int| 0 <= i < table.slots().len() implies (#[trigger] table.slots()[i]).state.wf(later) by {
        assert(table.slots()[i].state.wf(now));
    }
}

} // verus!
