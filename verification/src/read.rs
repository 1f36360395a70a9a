//! Reading a slot: taking the memoized value, waiting for the worker that
//! computes it, or becoming that worker.

use vstd::prelude::*;
use vstd::std_specs::cmp::PartialEqSpec;
use crate::active_query::ComputedQueryResult;
use crate::durability::Durability;
use crate::event::{Event, EventKind};
use crate::key::{DatabaseKeyIndex, RuntimeId};
use crate::memo::{InputsView, Memo, MemoInputs, MemoView, Validation, ValidationView};
use crate::revision::{Registry, Revision};
use crate::slot::{MemoizationPolicy, QueryState, Slot, SlotView, StateView, MAX_WAITERS};
use crate::stamped::{CycleDetected, CycleError, StampedValue, WaitResult};
use crate::wait_graph::{waits_for, without_waiters_of, Target, WaitGraph};
use crate::waiters::{queue_into_vec, queue_len, queue_new, queue_push};

verus! {

/// How a reader gets the value of a slot that does not need computing.
pub enum Ready<V> {
    /// Here it is: the memoized value, verified in the current revision.
    Value(StampedValue<V>),
    /// The worker `other` is computing it.  The reader was entered among the
    /// workers that wait for the slot and has to wait; `event` tells of it.
    Wait { other: RuntimeId, event: Event },
    /// The worker that computes it is the reader itself, or waits for the
    /// reader: a cycle.
    Cycle(CycleDetected),
}

/// What a look at a slot shows a reader.
pub enum ProbeState<V> {
    /// The slot has an up-to-date value or will get one from another worker.
    UpToDate(Ready<V>),
    /// The slot is empty, its memo has no value, or the memo was not
    /// verified in the current revision.
    StaleOrAbsent,
}

/// What a read of a slot begins with.
pub enum ReadStep<V> {
    /// Nothing to compute for this reader.
    Ready(Ready<V>),
    /// The reader now owns the slot and has to bring it up to date; the
    /// guard holds the memo the slot had.
    Upgrade(PanicGuard<V>),
}

/// Held by the worker that owns a slot while it brings the slot up to date.
/// It keeps the memo the slot had, so that the slot can be put back in
/// order however the work ends.
pub struct PanicGuard<V> {
    /// The slot that is owned.
    pub database_key: DatabaseKeyIndex,
    /// The worker that owns it.
    pub id: RuntimeId,
    /// The memo the slot held when the worker took it over.
    pub memo: Option<Memo<V>>,
}

/// The workers to wake when a slot's owner is done, and what to hand each
/// of them: the result, or nothing at all if the owner gave up, in which
/// case the waiters are to give up too.
pub struct Wake<V> {
    /// The workers that waited, in the order they came, each by the counter
    /// of its id.
    pub waiters: Vec<usize>,
    pub result: Option<WaitResult<V, DatabaseKeyIndex>>,
}

/// How bringing a slot up to date ended.
pub struct Publication<V> {
    /// What the read that caused the work comes to.
    pub outcome: Result<StampedValue<V>, CycleError<DatabaseKeyIndex>>,
    /// Whom to wake, and with what.
    pub wake: Wake<V>,
    /// What to tell whoever watches.
    pub event: Event,
}

/// Whether `id` would close a circle by waiting for `other`.
pub open spec fn closes_cycle(graph: Map<RuntimeId, Target>, id: RuntimeId, other: RuntimeId) -> bool {
    other == id || waits_for(graph, other, id)
}

/// What a look at a slot by the worker `id` in revision `now` shows and
/// does: `before` and `graph_before` are the slot and the graph before the
/// look, `after` and `graph_after` after it.
///
/// If the slot is being computed, the looker is either told of the cycle
/// that waiting would close, and nothing changes, or it is entered behind
/// the workers that wait for the slot and into the graph, and told for whom
/// it waits.  Otherwise nothing changes; the looker gets a copy of the value
/// that is good for `now`, if there is one, and else is told that the slot
/// is stale or empty.
pub open spec fn probed<V: Clone>(
    before: SlotView<V>,
    graph_before: Map<RuntimeId, Target>,
    id: RuntimeId,
    now: Revision,
    probe: ProbeState<V>,
    after: SlotView<V>,
    graph_after: Map<RuntimeId, Target>,
) -> bool {
    &&& after.key == before.key
    &&& after.policy == before.policy
    &&& match before.state {
        StateView::InProgress { id: other, waiting } => probe matches ProbeState::UpToDate(ready) && waits_or_cycles(
            before,
            graph_before,
            id,
            ready,
            after,
            graph_after,
        ),
        state => {
            &&& after.state == state
            &&& graph_after == graph_before
            &&& match state.fresh_value(now) {
                Some(value) => probe matches ProbeState::UpToDate(Ready::Value(copy)) && value.cloned_as(copy),
                None => probe is StaleOrAbsent,
            }
        },
    }
}

/// What the worker `id` is told, and what changes, when it finds the slot
/// being computed: see [`probed`].
pub open spec fn waits_or_cycles<V>(
    before: SlotView<V>,
    graph_before: Map<RuntimeId, Target>,
    id: RuntimeId,
    ready: Ready<V>,
    after: SlotView<V>,
    graph_after: Map<RuntimeId, Target>,
) -> bool {
    let other = before.state->InProgress_id;
    let waiting = before.state->InProgress_waiting;
    if closes_cycle(graph_before, id, other) {
        &&& ready matches Ready::Cycle(cycle)
        &&& cycle == (CycleDetected { from: id, to: other })
        &&& after.state == before.state
        &&& graph_after == graph_before
    } else {
        &&& ready matches Ready::Wait { other: owner, event }
        &&& owner == other
        &&& event == (Event {
            runtime_id: id,
            kind: EventKind::WillBlockOn { other_runtime_id: other, database_key: before.key },
        })
        &&& after.state == (StateView::<V>::InProgress { id: other, waiting: waiting.push(id.counter) })
        &&& graph_after == graph_before.insert(id, Target { key: before.key, to: other })
    }
}

/// How a read of a slot by the worker `id` in revision `now` begins:
/// `before` and `graph_before` are the slot and the graph before, `after`
/// and `graph_after` after.
///
/// If the slot is being computed, the reader waits or is told of a cycle, as
/// in [`probed`].  If the slot has a value that is good for `now`, the reader
/// gets a copy and nothing changes.  Otherwise the reader becomes the owner:
/// the slot is marked as being computed by `id`, with nobody waiting, and
/// the guard the reader gets holds what the slot held.
pub open spec fn read_begun<V: Clone>(
    before: SlotView<V>,
    graph_before: Map<RuntimeId, Target>,
    id: RuntimeId,
    now: Revision,
    step: ReadStep<V>,
    after: SlotView<V>,
    graph_after: Map<RuntimeId, Target>,
) -> bool {
    &&& after.key == before.key
    &&& after.policy == before.policy
    &&& match before.state {
        StateView::InProgress { id: other, waiting } => step matches ReadStep::Ready(ready) && waits_or_cycles(
            before,
            graph_before,
            id,
            ready,
            after,
            graph_after,
        ),
        state => {
            &&& graph_after == graph_before
            &&& match state.fresh_value(now) {
                Some(value) => {
                    &&& step matches ReadStep::Ready(Ready::Value(copy))
                    &&& value.cloned_as(copy)
                    &&& after.state == state
                },
                None => {
                    &&& step matches ReadStep::Upgrade(guard)
                    &&& guard.database_key == before.key
                    &&& guard.id == id
                    &&& released(guard.memo_view()) == state
                    &&& after.state == (StateView::<V>::InProgress { id, waiting: Seq::empty() })
                },
            }
        },
    }
}

/// The revision in which the value of a run of a query counts as changed.
/// It is the revision the run itself gives, unless the slot still had the
/// value of the run before, the new value equals it and is at least as
/// durable: then the value did not really change, and the revision of the
/// old value stands.
pub open spec fn backdated<V>(
    old_memo: Option<MemoView<V>>,
    durability: Durability,
    changed_at: Revision,
    values_equal: bool,
) -> Revision {
    match old_memo {
        Some(memo) => if memo.value is Some && durability.level() >= memo.durability.level() && values_equal {
            memo.changed_at
        } else {
            changed_at
        },
        None => changed_at,
    }
}

/// The state a slot is put in when its owner leaves it with the memo
/// `memo`, or with none.
pub open spec fn released<V>(memo: Option<MemoView<V>>) -> StateView<V> {
    match memo {
        Some(memo) => StateView::Memoized(memo),
        None => StateView::NotComputed,
    }
}

impl<V> PanicGuard<V> {
    /// The memo the guard holds, as a mathematical value.
    pub open spec fn memo_view(self) -> Option<MemoView<V>> {
        match self.memo {
            Some(memo) => Some(memo@),
            None => None,
        }
    }

    /// The guard of worker `id` for the slot `database_key`, which held
    /// `memo`.
    pub fn new(database_key: DatabaseKeyIndex, id: RuntimeId, memo: Option<Memo<V>>) -> (guard: PanicGuard<V>)
        ensures
            guard.database_key == database_key,
            guard.id == id,
            guard.memo == memo,
    {
        PanicGuard { database_key, id, memo }
    }

    /// The value the slot had, if it had one.
    pub fn old_value(&self) -> (value: Option<&V>)
        ensures
            value == match self.memo_view() {
                Some(memo) => match memo.value {
                    Some(v) => Some(&v),
                    None => None,
                },
                None => None,
            },
    {
        match &self.memo {
            Some(memo) => match &memo.value {
                Some(v) => Some(v),
                None => None,
            },
            None => None,
        }
    }

    /// Looks at the memo the slot had and says whether its value stands, is
    /// lost, or hangs on its inputs.  Without a memo there is no value.
    pub fn validate(&self, registry: &Registry) -> (validation: Validation)
        ensures
            validation@ == match self.memo_view() {
                Some(memo) => memo.validate(*registry),
                None => ValidationView::Stale,
            },
            validation@ matches ValidationView::CheckInputs(walk) ==> walk.wf(),
    {
        match &self.memo {
            Some(memo) => memo.validate_memoized_value(registry),
            None => Validation::Stale,
        }
    }

    /// Replaces the mark that the slot is being computed by the memo the
    /// guard holds, or by nothing if it holds none, and lets go of the
    /// workers that waited: they are to be handed `new_value`.
    pub fn overwrite_placeholder(
        &mut self,
        slot: &mut Slot<V>,
        graph: &mut WaitGraph,
        new_value: Option<WaitResult<V, DatabaseKeyIndex>>,
    ) -> (wake: Wake<V>)
        requires
            old(slot)@.state matches StateView::InProgress { id, .. } && id == old(self).id,
            old(slot)@.key == old(self).database_key,
            old(graph).wf(),
        ensures
            final(slot)@ == (SlotView { state: released(old(self).memo_view()), ..old(slot)@ }),
            final(self).memo is None,
            final(self).database_key == old(self).database_key,
            final(self).id == old(self).id,
            final(graph)@ == without_waiters_of(old(graph)@, Target { key: old(self).database_key, to: old(self).id }),
            final(graph).wf(),
            wake.waiters@ == old(slot)@.state->InProgress_waiting,
            wake.result == new_value,
    {
        let mut state = match self.memo.take() {
            Some(memo) => QueryState::Memoized(memo),
            None => QueryState::NotComputed,
        };
        std::mem::swap(&mut slot.state, &mut state);
        graph.unblock_queries_blocked_on(self.database_key, self.id);
        let waiters = match state {
            QueryState::InProgress { id, waiting } => queue_into_vec(waiting),
            _ => Vec::new(),
        };
        Wake { waiters, result: new_value }
    }

    /// The work ended with `new_value`: the slot gets the memo the guard
    /// holds, and the waiters get a copy of the value together with `cycle`.
    pub fn proceed(
        self,
        slot: &mut Slot<V>,
        graph: &mut WaitGraph,
        new_value: &StampedValue<V>,
        cycle: Vec<DatabaseKeyIndex>,
    ) -> (wake: Wake<V>) where V: Clone
        requires
            old(slot)@.state matches StateView::InProgress { id, .. } && id == self.id,
            old(slot)@.key == self.database_key,
            old(graph).wf(),
        ensures
            final(slot)@ == (SlotView { state: released(self.memo_view()), ..old(slot)@ }),
            final(graph)@ == without_waiters_of(old(graph)@, Target { key: self.database_key, to: self.id }),
            final(graph).wf(),
            wake.waiters@ == old(slot)@.state->InProgress_waiting,
            wake.result is Some,
            new_value.cloned_as(wake.result->0.value),
            wake.result->0.cycle@ == cycle@,
    {
        let result = WaitResult { value: new_value.clone(), cycle };
        let mut guard = self;
        guard.overwrite_placeholder(slot, graph, Some(result))
    }

    /// The worker that owns the slot panicked: the slot is left empty,
    /// whatever it held before, so that the next reader computes it anew, and
    /// the waiters get nothing.
    pub fn abandon(self, slot: &mut Slot<V>, graph: &mut WaitGraph) -> (wake: Wake<V>)
        requires
            old(slot)@.state matches StateView::InProgress { id, .. } && id == self.id,
            old(slot)@.key == self.database_key,
            old(graph).wf(),
        ensures
            final(slot)@ == (SlotView { state: StateView::NotComputed, ..old(slot)@ }),
            final(graph)@ == without_waiters_of(old(graph)@, Target { key: self.database_key, to: self.id }),
            final(graph).wf(),
            wake.waiters@ == old(slot)@.state->InProgress_waiting,
            wake.result is None,
    {
        let mut guard = PanicGuard { database_key: self.database_key, id: self.id, memo: None };
        guard.overwrite_placeholder(slot, graph, None)
    }

    /// The work ended in a cycle nobody recovered from: the slot gets back
    /// the memo it had, and the waiters get nothing.
    pub fn report_unexpected_cycle(self, slot: &mut Slot<V>, graph: &mut WaitGraph) -> (wake: Wake<V>)
        requires
            old(slot)@.state matches StateView::InProgress { id, .. } && id == self.id,
            old(slot)@.key == self.database_key,
            old(graph).wf(),
        ensures
            final(slot)@ == (SlotView { state: released(self.memo_view()), ..old(slot)@ }),
            final(graph)@ == without_waiters_of(old(graph)@, Target { key: self.database_key, to: self.id }),
            final(graph).wf(),
            wake.waiters@ == old(slot)@.state->InProgress_waiting,
            wake.result is None,
    {
        let mut guard = self;
        guard.overwrite_placeholder(slot, graph, None)
    }
}

impl<V> QueryState<V> {
    /// The state of a slot that worker `id` has just begun to compute:
    /// nobody waits yet.
    pub fn in_progress(id: RuntimeId) -> (state: QueryState<V>)
        ensures
            state@ == (StateView::<V>::InProgress { id, waiting: Seq::empty() }),
    {
        QueryState::InProgress { id, waiting: queue_new() }
    }
}

impl<V> Slot<V> {
    /// How many workers wait for the slot.
    pub fn waiting(&self) -> (n: usize)
        ensures
            n == match self@.state {
                StateView::InProgress { waiting, .. } => waiting.len(),
                _ => 0,
            },
    {
        match &self.state {
            QueryState::InProgress { waiting, .. } => queue_len(waiting),
            _ => 0,
        }
    }

    /// The worker `id`, which is running, found the slot being computed.
    /// Unless that closes a cycle, `id` is entered into the graph as waiting
    /// for the slot's owner and into the slot as a worker to wake, and the
    /// owner is returned.
    pub fn register_with_in_progress_thread(&mut self, graph: &mut WaitGraph, id: RuntimeId) -> (r: Result<
        RuntimeId,
        CycleDetected,
    >)
        requires
            old(self)@.state matches StateView::InProgress { waiting, .. } && waiting.len() < MAX_WAITERS,
            old(graph).wf(),
            !old(graph)@.contains_key(id),
        ensures
            final(graph).wf(),
            final(self)@.key == old(self)@.key,
            final(self)@.policy == old(self)@.policy,
            ({
                let other = old(self)@.state->InProgress_id;
                let waiting = old(self)@.state->InProgress_waiting;
                if closes_cycle(old(graph)@, id, other) {
                    &&& r == Err::<RuntimeId, CycleDetected>(CycleDetected { from: id, to: other })
                    &&& final(self)@.state == old(self)@.state
                    &&& final(graph)@ == old(graph)@
                } else {
                    &&& r == Ok::<RuntimeId, CycleDetected>(other)
                    &&& final(self)@.state == (StateView::<V>::InProgress { id: other, waiting: waiting.push(id.counter) })
                    &&& final(graph)@ == old(graph)@.insert(id, Target { key: old(self)@.key, to: other })
                }
            }),
    {
        match &mut self.state {
            QueryState::InProgress { id: other_id, waiting } => {
                let other = *other_id;
                if other == id {
                    return Err(CycleDetected { from: id, to: id });
                }
                if !graph.try_block_on(id, self.key, other) {
                    return Err(CycleDetected { from: id, to: other });
                }
                queue_push(waiting, id.counter);
                Ok(other)
            },
            _ => Err(CycleDetected { from: id, to: id }),
        }
    }

    /// Looks at the slot for the worker `id` in revision `revision_now`,
    /// without going into what the memo depends on.  A memoized value that
    /// was verified in this revision is handed out.  If another worker is
    /// computing the slot, `id` is set to wait for it, unless that closes a
    /// cycle.  Otherwise the slot is stale or empty, and nothing changes.
    pub fn probe(&mut self, graph: &mut WaitGraph, id: RuntimeId, revision_now: Revision) -> (probe: ProbeState<V>) where
        V: Clone,
        requires
            old(self)@.state matches StateView::InProgress { waiting, .. } ==> waiting.len() < MAX_WAITERS,
            old(graph).wf(),
            !old(graph)@.contains_key(id),
        ensures
            probed(old(self)@, old(graph)@, id, revision_now, probe, final(self)@, final(graph)@),
            final(graph).wf(),
            old(self).wf(revision_now) ==> final(self).wf(revision_now),
    {
        match &self.state {
            QueryState::NotComputed => ProbeState::StaleOrAbsent,
            QueryState::InProgress { .. } => {
                let database_key = self.key;
                match self.register_with_in_progress_thread(graph, id) {
                    Ok(other) => ProbeState::UpToDate(
                        Ready::Wait {
                            other,
                            event: Event {
                                runtime_id: id,
                                kind: EventKind::WillBlockOn { other_runtime_id: other, database_key },
                            },
                        },
                    ),
                    Err(cycle) => ProbeState::UpToDate(Ready::Cycle(cycle)),
                }
            },
            QueryState::Memoized(memo) => {
                if let Some(value) = &memo.value {
                    if memo.verified_at == revision_now {
                        return ProbeState::UpToDate(
                            Ready::Value(
                                StampedValue {
                                    durability: memo.durability,
                                    changed_at: memo.changed_at,
                                    value: value.clone(),
                                },
                            ),
                        );
                    }
                }
                ProbeState::StaleOrAbsent
            },
        }
    }

    /// The second phase of a read, entered when a look at the slot showed no
    /// up-to-date value.  The slot is looked at once more; if there is still
    /// nothing to take and nobody to wait for, the worker `id` becomes the
    /// slot's owner: the slot is marked as being computed by `id`, and the
    /// memo it held goes into the guard that is returned.
    pub fn read_upgrade(&mut self, graph: &mut WaitGraph, id: RuntimeId, revision_now: Revision) -> (step: ReadStep<
        V,
    >) where V: Clone
        requires
            old(self)@.state matches StateView::InProgress { waiting, .. } ==> waiting.len() < MAX_WAITERS,
            old(graph).wf(),
            !old(graph)@.contains_key(id),
        ensures
            read_begun(old(self)@, old(graph)@, id, revision_now, step, final(self)@, final(graph)@),
            final(graph).wf(),
            old(self).wf(revision_now) ==> final(self).wf(revision_now),
    {
        match self.probe(graph, id, revision_now) {
            ProbeState::UpToDate(ready) => ReadStep::Ready(ready),
            ProbeState::StaleOrAbsent => {
                let mut state = QueryState::in_progress(id);
                std::mem::swap(&mut self.state, &mut state);
                let old_memo = match state {
                    QueryState::Memoized(old_memo) => Some(old_memo),
                    _ => None,
                };
                ReadStep::Upgrade(PanicGuard::new(self.key, id, old_memo))
            },
        }
    }

    /// Begins a read of the slot by the worker `id` in revision
    /// `revision_now`: a look at the slot and, if that shows nothing to take
    /// and nobody to wait for, the second phase.
    pub fn read(&mut self, graph: &mut WaitGraph, id: RuntimeId, revision_now: Revision) -> (step: ReadStep<V>) where
        V: Clone,
        requires
            old(self)@.state matches StateView::InProgress { waiting, .. } ==> waiting.len() < MAX_WAITERS,
            old(graph).wf(),
            !old(graph)@.contains_key(id),
        ensures
            read_begun(old(self)@, old(graph)@, id, revision_now, step, final(self)@, final(graph)@),
            final(graph).wf(),
            old(self).wf(revision_now) ==> final(self).wf(revision_now),
    {
        match self.probe(graph, id, revision_now) {
            ProbeState::UpToDate(ready) => ReadStep::Ready(ready),
            ProbeState::StaleOrAbsent => self.read_upgrade(graph, id, revision_now),
        }
    }
}

/// What a run of a query came to, once a cycle it ran into was recovered
/// from: the value of the recovery in place of the run's own.
pub open spec fn settled_value<V>(result: ComputedQueryResult<V>, recovered: Option<V>) -> V {
    if result.cycle@.len() > 0 && recovered is Some {
        recovered->0
    } else {
        result.value
    }
}

/// Whether the slot had a value and `value` equals it, as `==` on `V` is
/// specified.
pub open spec fn same_as_before<V: PartialEq>(old_memo: Option<MemoView<V>>, value: V) -> bool {
    match old_memo {
        Some(memo) => memo.value is Some && memo.value->0.eq_spec(&value),
        None => false,
    }
}

/// Whether a run of a query ended in a cycle that nobody recovered from.
pub open spec fn unrecovered<V>(result: ComputedQueryResult<V>, recovered: Option<V>) -> bool {
    result.cycle@.len() > 0 && recovered is None
}

/// What [`Slot::publish_with`] does: `before` and `graph_before` are the
/// slot and the graph when it is called, `after` and `graph_after` when it
/// returns `done`.
///
/// In every case the workers that waited for the slot wait no longer and are
/// listed in `done`, and `done` tells that the query was run.  After a cycle
/// without recovery the read fails with the cycle and the stamps of the run,
/// the slot is released with what it had, and the waiters get nothing.
/// Otherwise the read gets the settled value under the durability of the run
/// and the revision [`backdated`] gives; the slot gets a memo that was
/// verified in `now`, carries these stamps and the inputs of the run, and
/// holds a copy of the value if the slot keeps values; the waiters get a copy
/// of the value with the cycle of the run.
pub open spec fn published<V: Clone>(
    before: SlotView<V>,
    graph_before: Map<RuntimeId, Target>,
    guard: PanicGuard<V>,
    result: ComputedQueryResult<V>,
    recovered: Option<V>,
    values_equal: bool,
    now: Revision,
    after: SlotView<V>,
    graph_after: Map<RuntimeId, Target>,
    done: Publication<V>,
) -> bool {
    &&& after.key == before.key
    &&& after.policy == before.policy
    &&& graph_after == without_waiters_of(graph_before, Target { key: guard.database_key, to: guard.id })
    &&& done.wake.waiters@ == before.state->InProgress_waiting
    &&& done.event == (Event {
        runtime_id: guard.id,
        kind: EventKind::DidExecuteQuery { database_key: guard.database_key },
    })
    &&& if unrecovered(result, recovered) {
        &&& done.outcome matches Err(err)
        &&& err.cycle@ == result.cycle@
        &&& err.changed_at == result.changed_at
        &&& err.durability == result.durability
        &&& after.state == released(guard.memo_view())
        &&& done.wake.result is None
    } else {
        let changed_at = backdated(guard.memo_view(), result.durability, result.changed_at, values_equal);
        let value = StampedValue { value: settled_value(result, recovered), durability: result.durability, changed_at };
        &&& done.outcome == Ok::<StampedValue<V>, CycleError<DatabaseKeyIndex>>(value)
        &&& after.state matches StateView::Memoized(memo)
        &&& memo.verified_at == now
        &&& memo.changed_at == changed_at
        &&& memo.durability == result.durability
        &&& memo.inputs == InputsView::from_dependencies(result.spec_dependencies())
        &&& if before.policy == MemoizationPolicy::AlwaysMemoizeValue {
            memo.value is Some && cloned(value.value, memo.value->0)
        } else {
            memo.value is None
        }
        &&& done.wake.result matches Some(handed)
        &&& value.cloned_as(handed.value)
        &&& handed.cycle@ == result.cycle@
    }
}

impl<V: Clone> Slot<V> {
    /// The owner found that the value the slot had still stands.  The memo
    /// goes back into the slot, verified in `revision_now`; the read that
    /// caused the work gets a copy of the value, and so do the waiters.
    pub fn publish_validated(&mut self, guard: PanicGuard<V>, graph: &mut WaitGraph, revision_now: Revision) -> (done:
        Publication<V>)
        requires
            old(self)@.state matches StateView::InProgress { id, .. } && id == guard.id,
            old(self)@.key == guard.database_key,
            old(graph).wf(),
            guard.memo_view() matches Some(memo) && memo.value is Some,
        ensures
            final(self)@ == (SlotView {
                state: StateView::Memoized(guard.memo_view()->0.verified(revision_now)),
                ..old(self)@
            }),
            final(graph)@ == without_waiters_of(old(graph)@, Target { key: guard.database_key, to: guard.id }),
            final(graph).wf(),
            done.outcome matches Ok(value) && guard.memo_view()->0.stamped().cloned_as(value),
            done.wake.waiters@ == old(self)@.state->InProgress_waiting,
            done.wake.result matches Some(result) && done.outcome->Ok_0.cloned_as(result.value) && result.cycle@.len() == 0,
            done.event == (Event {
                runtime_id: guard.id,
                kind: EventKind::DidValidateMemoizedValue { database_key: guard.database_key },
            }),
            guard.memo_view()->0.wf(revision_now) ==> final(self).wf(revision_now),
    {
        let mut guard = guard;
        let event = Event {
            runtime_id: guard.id,
            kind: EventKind::DidValidateMemoizedValue { database_key: guard.database_key },
        };
        let value = match &mut guard.memo {
            Some(memo) => memo.mark_value_as_verified(revision_now),
            None => vstd::pervasive::unreached(),
        };
        let wake = guard.proceed(self, graph, &value, Vec::new());
        Publication { outcome: Ok(value), wake, event }
    }

    /// The owner ran the query, which came to `result`; `recovered` is what
    /// the query's recovery made of the cycle the run was found on, if it was
    /// found on one and the query has a recovery; `values_equal` says whether
    /// the value now equals the one the slot had, where it had one.
    ///
    /// What happens to the slot, the graph and the waiters, and what the read
    /// comes to, is stated by [`published`].
    pub fn publish_with(
        &mut self,
        guard: PanicGuard<V>,
        graph: &mut WaitGraph,
        result: ComputedQueryResult<V>,
        recovered: Option<V>,
        values_equal: bool,
        revision_now: Revision,
    ) -> (done: Publication<V>)
        requires
            old(self)@.state matches StateView::InProgress { id, .. } && id == guard.id,
            old(self)@.key == guard.database_key,
            old(graph).wf(),
        ensures
            published(old(self)@, old(graph)@, guard, result, recovered, values_equal, revision_now, final(self)@, final(graph)@, done),
            final(graph).wf(),
    {
        let event = Event { runtime_id: guard.id, kind: EventKind::DidExecuteQuery { database_key: guard.database_key } };
        let mut guard = guard;
        let ComputedQueryResult { value, durability, changed_at, dependencies, cycle } = result;
        let mut value = value;
        if cycle.len() > 0 {
            match recovered {
                Some(v) => {
                    value = v;
                },
                None => {
                    let err = CycleError { cycle, durability, changed_at };
                    let wake = guard.report_unexpected_cycle(self, graph);
                    return Publication { outcome: Err(err), wake, event };
                },
            }
        }
        let mut changed_at = changed_at;
        if let Some(old_memo) = &guard.memo {
            if old_memo.value.is_some() {
                if old_memo.durability.le(durability) && values_equal {
                    changed_at = old_memo.changed_at;
                }
            }
        }
        let new_value = StampedValue { value, durability, changed_at };
        let kept = if self.should_memoize_value() {
            Some(new_value.value.clone())
        } else {
            None
        };
        let inputs = MemoInputs::from_dependencies(dependencies);
        guard.memo = Some(Memo { value: kept, changed_at, verified_at: revision_now, inputs, durability });
        let wake = guard.proceed(self, graph, &new_value, cycle);
        Publication { outcome: Ok(new_value), wake, event }
    }

    /// As [`Slot::publish_with`], for values that can be compared: whether
    /// the value now equals the one the slot had is found out here, with
    /// `==`, where the answer matters.  Where `==` on `V` is known to be what
    /// its specification says, the outcome is exactly that of
    /// [`Slot::publish_with`] for that answer; in any case it is the outcome
    /// for one of the two answers.
    pub fn publish_computed(
        &mut self,
        guard: PanicGuard<V>,
        graph: &mut WaitGraph,
        result: ComputedQueryResult<V>,
        recovered: Option<V>,
        revision_now: Revision,
    ) -> (done: Publication<V>) where V: PartialEq
        requires
            old(self)@.state matches StateView::InProgress { id, .. } && id == guard.id,
            old(self)@.key == guard.database_key,
            old(graph).wf(),
        ensures
            published(old(self)@, old(graph)@, guard, result, recovered, true, revision_now, final(self)@, final(graph)@, done)
                || published(
                old(self)@,
                old(graph)@,
                guard,
                result,
                recovered,
                false,
                revision_now,
                final(self)@,
                final(graph)@,
                done,
            ),
            V::obeys_eq_spec() ==> published(
                old(self)@,
                old(graph)@,
                guard,
                result,
                recovered,
                same_as_before(guard.memo_view(), settled_value(result, recovered)),
                revision_now,
                final(self)@,
                final(graph)@,
                done,
            ),
            final(graph).wf(),
    {
        let values_equal = match &guard.memo {
            Some(old_memo) => match &old_memo.value {
                Some(old_value) => {
                    if old_memo.durability.le(result.durability) {
                        let settled = if result.cycle.len() > 0 {
                            match &recovered {
                                Some(v) => v,
                                None => &result.value,
                            }
                        } else {
                            &result.value
                        };
                        *old_value == *settled
                    } else {
                        false
                    }
                },
                None => false,
            },
            None => false,
        };
        self.publish_with(guard, graph, result, recovered, values_equal, revision_now)
    }
}

/// A slot that is brought up to date stays in order: if the run read no
/// slot twice and changed no later than `now`, and the memo the slot had was
/// in order, the slot is in order afterwards, whatever the run came to.
pub proof fn lemma_publish_keeps_order<V>(
    old_memo: Option<MemoView<V>>,
    result: ComputedQueryResult<V>,
    values_equal: bool,
    memo: MemoView<V>,
    now: Revision,
)
    requires
        old_memo matches Some(m) ==> m.wf(now),
        result.changed_at@ <= now@,
        result.spec_dependencies() matches Some(d) ==> d.no_duplicates(),
        memo.verified_at == now,
        memo.changed_at == backdated(old_memo, result.durability, result.changed_at, values_equal),
        memo.inputs == InputsView::from_dependencies(result.spec_dependencies()),
    ensures
        memo.wf(now),
        released(old_memo).wf(now),
        memo.changed_at@ <= now@,
{
}

} // verus!
