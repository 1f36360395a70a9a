//! The runtime of one worker: who it is, what time it is, and which queries
//! it is running.

use vstd::prelude::*;
use crate::active_query::{ComputedQueryResult, FrameView, Read};
use crate::durability::Durability;
use crate::input::InputSlot;
use crate::key::{DatabaseKeyIndex, RuntimeId};
use crate::query_stack::{innermost, is_active, keys_from, mark_from, mark_members, participants_start, with_top, QueryStack};
use crate::slot::{Slot, SlotView, StateView};
use crate::wait_graph::{stops_after, walk_keys, WaitGraph};
use crate::revision::{Registry, Revision};
use crate::stamped::{CycleDetected, CycleError, StampedValue};

verus! {

/// The runtime of one worker.  The writer's runtime counts the snapshots
/// that were taken from it and not yet released; while there are any, it
/// cannot begin a new revision.
#[derive(Debug)]
pub struct Runtime {
    /// Which worker this is.
    pub id: RuntimeId,
    /// The revision counter, as this worker sees it.
    pub registry: Registry,
    /// The queries this worker is running.
    pub stack: QueryStack,
    /// How many snapshots of this runtime are in use.
    pub snapshots: usize,
    /// The counter of the id the next snapshot gets.
    pub next_id: usize,
    /// Whether a write is waiting for the snapshots to be released.
    pub canceled: bool,
}

/// What an attempt to write comes to.
#[derive(Debug)]
pub enum WriteStep<T> {
    /// The write was made, in the revision given.
    Done(Revision),
    /// Snapshots are in use.  They were asked to wind up; what was to be
    /// written comes back, to be written when they are released.
    Blocked(T),
}

impl Runtime {
    /// The registry and the stack are in order, and the ids of snapshots
    /// still to come are later than this runtime's.
    pub open spec fn wf(self) -> bool {
        &&& self.registry.wf()
        &&& self.stack.wf()
        &&& self.id.counter < self.next_id
    }

    /// The runtime of a writer at the first revision: no query runs, no
    /// snapshot is in use.
    pub fn new() -> (runtime: Runtime)
        ensures
            runtime.wf(),
            runtime.id == (RuntimeId { counter: 0 }),
            runtime.registry.current@ == 1,
            forall|d: Durability| runtime.registry.spec_last_changed(d)@ == 1,
            runtime.stack@ == Seq::<FrameView>::empty(),
            runtime.snapshots == 0,
            runtime.next_id == 1,
            !runtime.canceled,
    {
        Runtime {
            id: RuntimeId { counter: 0 },
            registry: Registry::new(),
            stack: QueryStack::new(),
            snapshots: 0,
            next_id: 1,
            canceled: false,
        }
    }

    /// Which worker this is.
    pub fn id(&self) -> (id: RuntimeId)
        ensures
            id == self.id,
    {
        self.id
    }

    /// The current revision.
    pub fn current_revision(&self) -> (r: Revision)
        ensures
            r == self.registry.current,
    {
        self.registry.current()
    }

    /// The last revision in which a value of class `d` changed.
    pub fn last_changed_revision(&self, d: Durability) -> (r: Revision)
        ensures
            r == self.registry.spec_last_changed(d),
    {
        self.registry.last_changed(d)
    }

    /// Whether a write is waiting for this revision to end, so that queries
    /// that run in it had better wind up.
    pub fn is_current_revision_canceled(&self) -> (canceled: bool)
        ensures
            canceled == self.canceled,
    {
        self.canceled
    }

    /// Whether the worker is running a query.
    pub fn query_in_progress(&self) -> (running: bool)
        ensures
            running == (self.stack@.len() > 0),
    {
        self.stack.depth() > 0
    }

    /// Takes a snapshot: the runtime of a new worker that sees the same
    /// revisions and runs no query.  Not to be taken while a query runs.
    pub fn snapshot(&mut self) -> (snapshot: Runtime)
        requires
            old(self).wf(),
            old(self).stack@.len() == 0,
            old(self).next_id < usize::MAX,
            old(self).snapshots < usize::MAX,
        ensures
            final(self).wf(),
            snapshot.wf(),
            snapshot.id == (RuntimeId { counter: old(self).next_id }),
            snapshot.id != final(self).id,
            snapshot.registry == old(self).registry,
            snapshot.stack@ == Seq::<FrameView>::empty(),
            snapshot.snapshots == 0,
            snapshot.canceled == old(self).canceled,
            final(self).snapshots == old(self).snapshots + 1,
            final(self).next_id == old(self).next_id + 1,
            final(self).id == old(self).id,
            final(self).registry == old(self).registry,
            final(self).stack@ == old(self).stack@,
            final(self).canceled == old(self).canceled,
    {
        let id = RuntimeId { counter: self.next_id };
        self.next_id = self.next_id + 1;
        self.snapshots = self.snapshots + 1;
        Runtime {
            id,
            registry: self.registry,
            stack: QueryStack::new(),
            snapshots: 0,
            next_id: self.next_id,
            canceled: self.canceled,
        }
    }

    /// A snapshot of this runtime is no longer in use.
    pub fn release_snapshot(&mut self)
        ensures
            final(self).snapshots == if old(self).snapshots > 0 {
                (old(self).snapshots - 1) as usize
            } else {
                0
            },
            final(self).id == old(self).id,
            final(self).registry == old(self).registry,
            final(self).stack == old(self).stack,
            final(self).next_id == old(self).next_id,
            final(self).canceled == old(self).canceled,
    {
        if self.snapshots > 0 {
            self.snapshots = self.snapshots - 1;
        }
    }

    /// Tries to begin a new revision in which a value of class `durability`
    /// changed.  While snapshots are in use, nothing changes but that the
    /// current revision counts as canceled.  With none in use the new
    /// revision begins, and it is not canceled.
    pub fn synthetic_write(&mut self, durability: Durability) -> (step: WriteStep<()>)
        requires
            old(self).wf(),
            old(self).registry.current@ < u64::MAX,
        ensures
            final(self).wf(),
            final(self).id == old(self).id,
            final(self).stack == old(self).stack,
            final(self).snapshots == old(self).snapshots,
            final(self).next_id == old(self).next_id,
            if old(self).snapshots > 0 {
                &&& step == WriteStep::Blocked(())
                &&& final(self).registry == old(self).registry
                &&& final(self).canceled
            } else {
                &&& step == WriteStep::<()>::Done(final(self).registry.current)
                &&& final(self).registry == old(self).registry.spec_bump(durability)
                &&& !final(self).canceled
            },
    {
        if self.snapshots > 0 {
            self.canceled = true;
            WriteStep::Blocked(())
        } else {
            let revision = self.registry.bump(durability);
            self.canceled = false;
            WriteStep::Done(revision)
        }
    }

    /// Tries to set the input `slot` to `value`.  While snapshots are in
    /// use, nothing changes but that the current revision counts as
    /// canceled, and `value` comes back.  With none in use the input is set
    /// as [`InputSlot::set`] says: a new revision begins, and the input
    /// holds `value`, changed in the new revision.
    pub fn set_input<V>(&mut self, slot: &mut InputSlot<V>, value: V, durability: Durability) -> (step: WriteStep<V>)
        requires
            old(self).wf(),
            old(self).registry.current@ < u64::MAX,
        ensures
            final(self).wf(),
            final(self).id == old(self).id,
            final(self).stack == old(self).stack,
            final(self).snapshots == old(self).snapshots,
            final(self).next_id == old(self).next_id,
            final(slot).key == old(slot).key,
            if old(self).snapshots > 0 {
                &&& step == WriteStep::Blocked(value)
                &&& final(self).registry == old(self).registry
                &&& final(self).canceled
                &&& *final(slot) == *old(slot)
            } else {
                &&& step == WriteStep::<V>::Done(final(self).registry.current)
                &&& final(self).registry == old(self).registry.spec_bump(old(slot).change_class(durability))
                &&& !final(self).canceled
                &&& final(slot).stamped_value == Some(
                    StampedValue { value, durability, changed_at: final(self).registry.current },
                )
            },
    {
        if self.snapshots > 0 {
            self.canceled = true;
            WriteStep::Blocked(value)
        } else {
            let _ = slot.set(&mut self.registry, self.id, value, durability);
            self.canceled = false;
            WriteStep::Done(self.registry.current())
        }
    }

    /// The worker begins to run the query of `key`, in the current revision.
    pub fn prepare_query_execute(&mut self, key: DatabaseKeyIndex)
        requires
            old(self).wf(),
        ensures
            final(self).wf(),
            final(self).stack@ == old(self).stack@.push(FrameView::fresh(key, old(self).registry.current)),
            final(self).id == old(self).id,
            final(self).registry == old(self).registry,
            final(self).snapshots == old(self).snapshots,
            final(self).next_id == old(self).next_id,
            final(self).canceled == old(self).canceled,
    {
        let now = self.registry.current();
        self.stack.push_query(key, now);
    }

    /// The query on top came to `value`.
    pub fn complete_query<V>(&mut self, value: V) -> (result: ComputedQueryResult<V>)
        requires
            old(self).wf(),
            old(self).stack@.len() > 0,
        ensures
            final(self).wf(),
            final(self).stack@ == old(self).stack@.drop_last(),
            result.completes(old(self).stack@.last(), value),
            final(self).id == old(self).id,
            final(self).registry == old(self).registry,
            final(self).snapshots == old(self).snapshots,
            final(self).next_id == old(self).next_id,
            final(self).canceled == old(self).canceled,
    {
        self.stack.pop_query(value)
    }

    /// The query on top read the slot `input`, whose value has the given
    /// stamps.
    pub fn report_query_read(&mut self, input: DatabaseKeyIndex, durability: Durability, changed_at: Revision)
        requires
            old(self).wf(),
        ensures
            final(self).wf(),
            final(self).stack@ == with_top(
                old(self).stack@,
                old(self).stack@.last().add_read(Read { input, durability, changed_at }),
            ),
            final(self).id == old(self).id,
            final(self).registry == old(self).registry,
            final(self).snapshots == old(self).snapshots,
            final(self).next_id == old(self).next_id,
            final(self).canceled == old(self).canceled,
    {
        self.stack.report_query_read(input, durability, changed_at);
    }

    /// The query on top read something the engine cannot track: it counts as
    /// changed in the current revision and is as little durable as can be.
    pub fn report_untracked_read(&mut self)
        requires
            old(self).wf(),
        ensures
            final(self).wf(),
            final(self).stack@ == with_top(
                old(self).stack@,
                old(self).stack@.last().add_untracked_read(old(self).registry.current),
            ),
            final(self).id == old(self).id,
            final(self).registry == old(self).registry,
            final(self).snapshots == old(self).snapshots,
            final(self).next_id == old(self).next_id,
            final(self).canceled == old(self).canceled,
    {
        let now = self.registry.current();
        self.stack.report_untracked_read(now);
    }

    /// The query on top read outside state of the given durability: it is
    /// at most that durable.  The revision counter stays as it is.
    pub fn report_synthetic_read(&mut self, durability: Durability)
        requires
            old(self).wf(),
        ensures
            final(self).wf(),
            final(self).stack@ == with_top(old(self).stack@, old(self).stack@.last().add_synthetic_read(durability)),
            final(self).id == old(self).id,
            final(self).registry == old(self).registry,
            final(self).snapshots == old(self).snapshots,
            final(self).next_id == old(self).next_id,
            final(self).canceled == old(self).canceled,
    {
        self.stack.report_synthetic_read(durability);
    }
}

impl Runtime {
    /// See [`QueryStack::report_unexpected_cycle`]; the error is stamped with
    /// `changed_at`.
    pub fn report_unexpected_cycle(
        &mut self,
        key: DatabaseKeyIndex,
        detected: CycleDetected,
        graph: &WaitGraph,
        changed_at: Revision,
    ) -> (err: CycleError<DatabaseKeyIndex>)
        requires
            old(self).wf(),
            graph.wf(),
            detected.from == detected.to ==> is_active(old(self).stack@, key),
        ensures
            final(self).wf(),
            err.changed_at == changed_at,
            err.durability == Durability::HIGH,
            err.cycle@.len() > 0,
            if detected.from == detected.to {
                &&& err.cycle@ == keys_from(old(self).stack@, innermost(old(self).stack@, key))
                &&& final(self).stack@ == mark_from(old(self).stack@, innermost(old(self).stack@, key), err.cycle@)
            } else {
                &&& exists|n: nat|
                    stops_after(graph@, detected.to, detected.from, n) && err.cycle@ == walk_keys(graph@, detected.to, n).push(
                        key,
                    )
                &&& final(self).stack@ == mark_members(old(self).stack@, err.cycle@)
            },
            final(self).id == old(self).id,
            final(self).registry == old(self).registry,
            final(self).snapshots == old(self).snapshots,
            final(self).next_id == old(self).next_id,
            final(self).canceled == old(self).canceled,
    {
        self.stack.report_unexpected_cycle(key, detected, graph, changed_at)
    }

    /// See [`QueryStack::mark_cycle_participants`].
    pub fn mark_cycle_participants(&mut self, participants: &Vec<DatabaseKeyIndex>)
        requires
            old(self).wf(),
        ensures
            final(self).wf(),
            final(self).stack@ == mark_from(
                old(self).stack@,
                participants_start(old(self).stack@, participants@),
                participants@,
            ),
            final(self).id == old(self).id,
            final(self).registry == old(self).registry,
            final(self).snapshots == old(self).snapshots,
            final(self).next_id == old(self).next_id,
            final(self).canceled == old(self).canceled,
    {
        self.stack.mark_cycle_participants(participants);
    }

    /// Tries to invalidate the derived slot `slot`: the slot forgets what its
    /// value was computed from, and a new revision begins in which a value
    /// as durable as the slot's memo changed (as little durable as can be,
    /// if the slot holds no memo).  While snapshots are in use nothing
    /// changes but that the current revision counts as canceled.
    pub fn invalidate<V>(&mut self, slot: &mut Slot<V>) -> (step: WriteStep<()>)
        requires
            old(self).wf(),
            old(self).registry.current@ < u64::MAX,
        ensures
            final(self).wf(),
            final(self).id == old(self).id,
            final(self).stack == old(self).stack,
            final(self).snapshots == old(self).snapshots,
            final(self).next_id == old(self).next_id,
            if old(self).snapshots > 0 {
                &&& step == WriteStep::Blocked(())
                &&& final(self).registry == old(self).registry
                &&& final(self).canceled
                &&& final(slot)@ == old(slot)@
            } else {
                &&& step == WriteStep::<()>::Done(final(self).registry.current)
                &&& final(self).registry == old(self).registry.spec_bump(
                    match old(slot)@.state {
                        StateView::Memoized(memo) => memo.durability,
                        _ => Durability::LOW,
                    },
                )
                &&& !final(self).canceled
                &&& final(slot)@ == (SlotView { state: old(slot)@.state.invalidate(), ..old(slot)@ })
            },
            old(slot).wf(old(self).registry.current) ==> final(slot).wf(final(self).registry.current),
    {
        if self.snapshots > 0 {
            self.canceled = true;
            WriteStep::Blocked(())
        } else {
            let durability = match slot.invalidate() {
                Some(durability) => durability,
                None => Durability::LOW,
            };
            let revision = self.registry.bump(durability);
            self.canceled = false;
            WriteStep::Done(revision)
        }
    }
}

/// A write that found snapshots in use is made once they are all released:
/// after as many releases as there were snapshots, none is in use.
pub proof fn lemma_released_snapshots(snapshots: nat, releases: nat)
    ensures
        after_releases(snapshots, releases) == if releases >= snapshots {
            0
        } else {
            (snapshots - releases) as nat
        },
    decreases releases,
{
    if releases > 0 {
        lemma_released_snapshots(snapshots, (releases - 1) as nat);
    }
}

/// How many snapshots are in use after `releases` of them were released.
pub open spec fn after_releases(snapshots: nat, releases: nat) -> nat
    decreases releases,
{
    if releases == 0 {
        snapshots
    } else {
        let before = after_releases(snapshots, (releases - 1) as nat);
        if before > 0 {
            (before - 1) as nat
        } else {
            0
        }
    }
}

} // verus!
