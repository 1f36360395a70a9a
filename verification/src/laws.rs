//! What holds of the engine as a whole, stated over the specifications of
//! its functions and proved.

use vstd::prelude::*;
use crate::active_query::{lemma_changed_at_bounds, lemma_durability_at_most_every_read, lemma_reads_keep_order, lemma_untracked_is_kept, ComputedQueryResult, FrameView, Read};
use crate::changed::ChangeProbeView;
use crate::durability::Durability;
use crate::key::{DatabaseKeyIndex, RuntimeId};
use crate::memo::{lemma_walk_outcome, InputsView, MemoView, ValidationView, WalkView};
use crate::read::{published, read_begun, unrecovered, PanicGuard, Publication, ReadStep, Ready};
use crate::revision::{Registry, Revision};
use crate::slot::{MemoizationPolicy, SlotView, StateView};
use crate::sweep::{DiscardIf, DiscardWhat, SweepStrategy};
use crate::wait_graph::Target;

verus! {

/// Reading twice gives the same value without running the query twice.  If
/// a read in revision `now` finds a value that is good for `now`, the reader
/// gets a copy of that value and the slot stays as it is, so that the next
/// read in `now` finds the same; the reader does not become the owner, which
/// alone runs the query.
pub proof fn law_fresh_value_is_reread<V: Clone>(
    before: SlotView<V>,
    graph_before: Map<RuntimeId, Target>,
    id: RuntimeId,
    now: Revision,
    step: ReadStep<V>,
    after: SlotView<V>,
    graph_after: Map<RuntimeId, Target>,
)
    requires
        read_begun(before, graph_before, id, now, step, after, graph_after),
        before.state.fresh_value(now) is Some,
    ensures
        step matches ReadStep::Ready(Ready::Value(copy)) && before.state.fresh_value(now)->0.cloned_as(copy),
        after == before,
        graph_after == graph_before,
        after.state.fresh_value(now) == before.state.fresh_value(now),
{
}

/// What a run of a query published is what the next read in the same
/// revision finds, where the slot keeps values: the value is a copy of the
/// one the run came to, under the same stamps.
pub proof fn law_published_value_is_fresh<V: Clone>(
    before: SlotView<V>,
    graph_before: Map<RuntimeId, Target>,
    guard: PanicGuard<V>,
    result: ComputedQueryResult<V>,
    recovered: Option<V>,
    values_equal: bool,
    now: Revision,
    after: SlotView<V>,
    graph_after: Map<RuntimeId, Target>,
    done: Publication<V>,
)
    requires
        published(before, graph_before, guard, result, recovered, values_equal, now, after, graph_after, done),
        !unrecovered(result, recovered),
        before.policy == MemoizationPolicy::AlwaysMemoizeValue,
    ensures
        done.outcome is Ok,
        after.state.fresh_value(now) matches Some(found) && done.outcome->Ok_0.cloned_as(found),
{
}

/// A memo whose inputs did not change is not computed again: only the
/// revision in which it was verified moves.  For a memo with a value, whose
/// query read nothing untracked, the look at it says that the value stands
/// or that the inputs are to be asked for changes after the memo was last
/// verified; if they are asked and every one answers that it did not
/// change, the check ends without a change, having asked them all in the
/// memo's order.  The memo verified in `now` differs from the memo only in
/// that revision.
pub proof fn law_unchanged_inputs_validate<V>(memo: MemoView<V>, registry: Registry, now: Revision, answers: Seq<bool>)
    requires
        memo.value is Some,
        !memo.has_untracked_input(),
        memo.inputs matches InputsView::Recorded { inputs } ==> answers.len() == inputs.len(),
        forall|i: int| 0 <= i < answers.len() ==> !answers[i],
    ensures
        match memo.validate(registry) {
            ValidationView::Verified => true,
            ValidationView::Stale => false,
            ValidationView::CheckInputs(walk) => {
                &&& memo.inputs matches InputsView::Recorded { inputs }
                &&& walk == WalkView::begin(inputs, memo.verified_at)
                &&& !walk.answers(answers).changed
                &&& walk.answers(answers).pending() is None
                &&& walk.answers(answers).position == inputs.len()
            },
        },
        memo.verified(now) == (MemoView { verified_at: now, ..memo }),
{
    if memo.inputs is Recorded {
        lemma_walk_outcome(memo.inputs->inputs, memo.verified_at, answers);
    }
}

/// A memo whose input changed is computed again: if the inputs are asked and
/// one answers that it changed, the check ends with a change at the first
/// such input, and the inputs after it are not asked.
pub proof fn law_changed_input_ends_walk(inputs: Seq<DatabaseKeyIndex>, since: Revision, answers: Seq<bool>, first: int)
    requires
        answers.len() == inputs.len(),
        0 <= first < answers.len(),
        answers[first],
        forall|i: int| 0 <= i < first ==> !answers[i],
    ensures
        WalkView::begin(inputs, since).answers(answers).changed,
        WalkView::begin(inputs, since).answers(answers).position == first,
        WalkView::begin(inputs, since).answers(answers).pending() is None,
{
    lemma_walk_outcome(inputs, since, answers);
    let end = WalkView::begin(inputs, since).answers(answers);
    if end.position < first {
        assert(!answers[end.position as int]);
    }
}

/// Whether the slot had a value, the new value equals it, and the new value
/// is at least as durable as the old one was.
pub open spec fn kept_value_stands<V>(old_memo: Option<MemoView<V>>, durability: Durability, values_equal: bool) -> bool {
    &&& old_memo is Some
    &&& old_memo->0.value is Some
    &&& values_equal
    &&& durability.level() >= old_memo->0.durability.level()
}

/// Backdating.  If the slot had a value, and the run came to an equal value
/// that is at least as durable, the new memo counts as changed when the old
/// one did; otherwise it counts as changed when the run says.
pub proof fn law_backdating<V: Clone>(
    before: SlotView<V>,
    graph_before: Map<RuntimeId, Target>,
    guard: PanicGuard<V>,
    result: ComputedQueryResult<V>,
    recovered: Option<V>,
    values_equal: bool,
    now: Revision,
    after: SlotView<V>,
    graph_after: Map<RuntimeId, Target>,
    done: Publication<V>,
)
    requires
        published(before, graph_before, guard, result, recovered, values_equal, now, after, graph_after, done),
        !unrecovered(result, recovered),
    ensures
        after.state is Memoized,
        done.outcome is Ok,
        done.outcome->Ok_0.changed_at == after.state->Memoized_0.changed_at,
        kept_value_stands(guard.memo_view(), result.durability, values_equal) ==> after.state->Memoized_0.changed_at
            == guard.memo_view()->0.changed_at,
        !kept_value_stands(guard.memo_view(), result.durability, values_equal) ==> after.state->Memoized_0.changed_at
            == result.changed_at,
{
}

/// A memo is never more durable than any value its query read: the memo
/// made from a run that began with a fresh record and made the reads
/// `reads` is at most as durable as each of them.
pub proof fn law_durability_at_most_inputs<V: Clone>(
    before: SlotView<V>,
    graph_before: Map<RuntimeId, Target>,
    guard: PanicGuard<V>,
    result: ComputedQueryResult<V>,
    recovered: Option<V>,
    values_equal: bool,
    now: Revision,
    after: SlotView<V>,
    graph_after: Map<RuntimeId, Target>,
    done: Publication<V>,
    reads: Seq<Read>,
    value: V,
)
    requires
        published(before, graph_before, guard, result, recovered, values_equal, now, after, graph_after, done),
        !unrecovered(result, recovered),
        result.completes(FrameView::fresh(before.key, now).add_reads(reads), value),
    ensures
        after.state is Memoized,
        forall|i: int| 0 <= i < reads.len() ==> after.state->Memoized_0.durability.level() <= (#[trigger] reads[i]).durability.level(),
        done.outcome->Ok_0.durability == after.state->Memoized_0.durability,
{
    assert forall|i: int| 0 <= i < reads.len() implies after.state->Memoized_0.durability.level() <= (#[trigger] reads[i]).durability.level() by {
        lemma_durability_at_most_every_read(FrameView::fresh(before.key, now), reads, i);
    }
}

/// The run of a query that began in revision `now` and read only values
/// that changed no later than `now` comes to a result that changed in `now`,
/// lists no input twice, and lists every slot it read.
pub proof fn law_run_is_in_order<V>(key: DatabaseKeyIndex, now: Revision, reads: Seq<Read>, result: ComputedQueryResult<V>, value: V)
    requires
        forall|i: int| 0 <= i < reads.len() ==> (#[trigger] reads[i]).changed_at@ <= now@,
        result.completes(FrameView::fresh(key, now).add_reads(reads), value),
    ensures
        result.changed_at == now,
        result.spec_dependencies() is Some,
        result.spec_dependencies()->0.no_duplicates(),
        forall|i: int| 0 <= i < reads.len() ==> result.spec_dependencies()->0.contains((#[trigger] reads[i]).input),
{
    let start = FrameView::fresh(key, now);
    lemma_changed_at_bounds(start, reads, now);
    lemma_reads_keep_order(start, reads);
    lemma_untracked_is_kept(start, reads);
}

/// No value is stamped with a revision that has not begun.  A slot that is
/// in order for `now` hands out, as good for `now`, only a value that
/// changed no later than `now`; and it is in order for every later revision.
pub proof fn law_changed_at_is_past<V>(state: StateView<V>, now: Revision, later: Revision)
    requires
        state.wf(now),
        now@ <= later@,
    ensures
        state.fresh_value(now) matches Some(value) ==> value.changed_at@ <= now@,
        state matches StateView::Memoized(memo) ==> memo.changed_at@ <= memo.verified_at@ <= now@,
        state.wf(later),
{
}

/// Bringing a slot up to date keeps it in order, and stamps what it hands
/// out with a revision that has begun: if the slot had a memo that was in
/// order, and the run changed no later than `now` and lists no input twice,
/// then the slot is in order for `now` afterwards, and the value the read
/// gets changed no later than `now`.
pub proof fn law_publish_keeps_order<V: Clone>(
    before: SlotView<V>,
    graph_before: Map<RuntimeId, Target>,
    guard: PanicGuard<V>,
    result: ComputedQueryResult<V>,
    recovered: Option<V>,
    values_equal: bool,
    now: Revision,
    after: SlotView<V>,
    graph_after: Map<RuntimeId, Target>,
    done: Publication<V>,
)
    requires
        published(before, graph_before, guard, result, recovered, values_equal, now, after, graph_after, done),
        guard.memo_view() matches Some(old_memo) ==> old_memo.wf(now),
        result.changed_at@ <= now@,
        result.spec_dependencies() matches Some(inputs) ==> inputs.no_duplicates(),
    ensures
        after.state.wf(now),
        done.outcome matches Ok(value) ==> value.changed_at@ <= now@,
        done.outcome matches Err(err) ==> err.changed_at@ <= now@,
{
}

/// Cycles are settled.  A run that was found on a cycle ends either with the
/// value of the recovery, which the slot memoizes and the read gets, or,
/// without a recovery, with a failed read that names the cycle.  Either way
/// the slot is no longer marked as being computed, nobody waits for it in
/// the graph, and the workers that waited are all to be woken.
pub proof fn law_cycle_is_settled<V: Clone>(
    before: SlotView<V>,
    graph_before: Map<RuntimeId, Target>,
    guard: PanicGuard<V>,
    result: ComputedQueryResult<V>,
    recovered: Option<V>,
    values_equal: bool,
    now: Revision,
    after: SlotView<V>,
    graph_after: Map<RuntimeId, Target>,
    done: Publication<V>,
)
    requires
        published(before, graph_before, guard, result, recovered, values_equal, now, after, graph_after, done),
        result.cycle@.len() > 0,
    ensures
        !(after.state is InProgress),
        recovered is Some ==> done.outcome is Ok && done.outcome->Ok_0.value == recovered->0 && after.state is Memoized,
        recovered is None ==> done.outcome is Err && done.outcome->Err_0.cycle@ == result.cycle@,
        forall|w: RuntimeId| #[trigger] graph_after.contains_key(w) ==> graph_after[w] != (Target { key: guard.database_key, to: guard.id }),
        done.wake.waiters@ == before.state->InProgress_waiting,
{
}

/// Invalidating a slot makes its query run again.  After the memo forgot
/// its inputs and a revision began in which a value as durable as the memo
/// changed, the slot has no value that is good for the new revision, a look
/// at the memo says that its value is lost, and whoever depends on the slot
/// is told that it changed.
pub proof fn law_invalidate_forces_execution<V>(memo: MemoView<V>, registry: Registry, revision: Revision)
    requires
        registry.wf(),
        registry.current@ < u64::MAX,
        memo.wf(registry.current),
    ensures
        ({
            let state = StateView::Memoized(memo).invalidate();
            let next = registry.spec_bump(memo.durability);
            &&& state == StateView::Memoized(memo.untracked())
            &&& state.fresh_value(next.current) is None
            &&& memo.untracked().validate(next) == ValidationView::Stale
            &&& memo.untracked().changed_since(next, revision, next.current) == ChangeProbeView::Answer(true)
        }),
{
}

/// The value of a query that ran is the value the read gets: after a run
/// without a cycle, whatever the slot held, the read comes to the value of
/// the run.
pub proof fn law_read_gets_value_of_run<V: Clone>(
    before: SlotView<V>,
    graph_before: Map<RuntimeId, Target>,
    guard: PanicGuard<V>,
    result: ComputedQueryResult<V>,
    recovered: Option<V>,
    values_equal: bool,
    now: Revision,
    after: SlotView<V>,
    graph_after: Map<RuntimeId, Target>,
    done: Publication<V>,
)
    requires
        published(before, graph_before, guard, result, recovered, values_equal, now, after, graph_after, done),
        result.cycle@.len() == 0,
    ensures
        done.outcome matches Ok(value) && value.value == result.value && value.durability == result.durability,
{
}

/// Sweeping everything away makes the query run again.  A sweep that
/// discards whole memos, whenever it discards, leaves the slot empty: the
/// next read finds nothing to take and nothing to check, so the reader
/// becomes the owner with no old memo, and the value of the run is what the
/// read gets.  The sweep spares a slot that is being computed, and a memo
/// verified in the current revision whose query read something untracked or,
/// if only outdated memos are to go, whatever its query read.
pub proof fn law_sweep_everything<V>(state: StateView<V>, now: Revision, discard_if: DiscardIf)
    ensures
        ({
            let strategy = SweepStrategy { discard_if, discard_what: DiscardWhat::Everything };
            let after = state.sweep(now, strategy);
            &&& after == state || after == StateView::<V>::NotComputed
            &&& state.swept(now, strategy) ==> after == StateView::<V>::NotComputed && after.fresh_value(now) is None
            &&& state is InProgress ==> after == state
            &&& discard_if == DiscardIf::Never ==> after == state
            &&& state is Memoized && state->Memoized_0.verified_at != now && discard_if != DiscardIf::Never ==> after
                == StateView::<V>::NotComputed
            &&& state is Memoized && !state->Memoized_0.has_untracked_input() && discard_if == DiscardIf::Always ==> after
                == StateView::<V>::NotComputed
        }),
{
}

/// Sweeping values away keeps what they were computed from: the memo stays,
/// with its stamps and inputs, so that what depends on the slot can still be
/// checked.
pub proof fn law_sweep_values_keeps_inputs<V>(state: StateView<V>, now: Revision, discard_if: DiscardIf)
    ensures
        ({
            let strategy = SweepStrategy { discard_if, discard_what: DiscardWhat::Values };
            let after = state.sweep(now, strategy);
            &&& state.swept(now, strategy) ==> after == StateView::Memoized(state->Memoized_0.without_value())
            &&& !state.swept(now, strategy) ==> after == state
            &&& state.wf(now) ==> after.wf(now)
        }),
{
}

} // verus!
