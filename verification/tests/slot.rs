//! One slot, taken through its states by hand.

use salsa::active_query::{ActiveQuery, ComputedQueryResult};
use salsa::changed::ChangeProbe;
use salsa::durability::Durability;
use salsa::event::{Event, EventKind};
use salsa::key::{DatabaseKeyIndex, RuntimeId};
use salsa::memo::{InputWalk, Memo, MemoInputs, Validation};
use salsa::read::{PanicGuard, ProbeState, ReadStep, Ready};
use salsa::revision::{Registry, Revision};
use salsa::slot::{MemoizationPolicy, QueryState, Slot};
use salsa::sweep::{DiscardIf, DiscardWhat, SweepStrategy};
use salsa::wait_graph::WaitGraph;

fn key(n: u32) -> DatabaseKeyIndex {
    DatabaseKeyIndex::new(0, 0, n)
}

fn worker(n: usize) -> RuntimeId {
    RuntimeId { counter: n }
}

fn rev(n: u64) -> Revision {
    Revision::from(n)
}

fn memo(value: Option<u32>, verified_at: u64, changed_at: u64, durability: Durability, inputs: MemoInputs) -> Memo<u32> {
    Memo { value, verified_at: rev(verified_at), changed_at: rev(changed_at), durability, inputs }
}

fn slot_with(memo: Memo<u32>) -> Slot<u32> {
    Slot { key: key(7), state: QueryState::Memoized(memo), policy: MemoizationPolicy::AlwaysMemoizeValue }
}

fn recorded(inputs: &[u32]) -> MemoInputs {
    MemoInputs::Recorded { inputs: inputs.iter().map(|n| key(*n)).collect() }
}

fn registry_at(current: u64, medium: u64, high: u64) -> Registry {
    Registry { current: rev(current), medium: rev(medium), high: rev(high) }
}

fn result(value: u32, durability: Durability, changed_at: u64, dependencies: Option<Vec<u32>>) -> ComputedQueryResult<u32> {
    ComputedQueryResult {
        value,
        durability,
        changed_at: rev(changed_at),
        dependencies: dependencies.map(|d| d.into_iter().map(key).collect()),
        cycle: Vec::new(),
    }
}

fn claim(slot: &mut Slot<u32>, graph: &mut WaitGraph, id: usize, now: u64) -> PanicGuard<u32> {
    match slot.read(graph, worker(id), rev(now)) {
        ReadStep::Upgrade(guard) => guard,
        _ => panic!("the slot was not to be had"),
    }
}

fn memo_of(slot: &Slot<u32>) -> &Memo<u32> {
    match &slot.state {
        QueryState::Memoized(memo) => memo,
        _ => panic!("the slot holds no memo"),
    }
}

#[test]
fn new_slot_is_empty() {
    let slot: Slot<u32> = Slot::new(key(3), MemoizationPolicy::NeverMemoizeValue);
    assert_eq!(slot.database_key(), key(3));
    assert!(!slot.should_memoize_value());
    assert!(matches!(slot.state, QueryState::NotComputed));
    assert!(slot.peek(rev(1)).is_none());
    assert!(slot.as_table_entry().is_none());
    assert_eq!(slot.durability(&Registry::new()), Durability::LOW);
    assert_eq!(slot.waiting(), 0);
    let keeps: Slot<u32> = Slot::new(key(3), MemoizationPolicy::AlwaysMemoizeValue);
    assert!(keeps.should_memoize_value());
}

#[test]
fn peek_hands_out_only_what_is_verified_now() {
    let slot = slot_with(memo(Some(11), 4, 2, Durability::MEDIUM, MemoInputs::NoInputs));
    let value = slot.peek(rev(4)).unwrap();
    assert_eq!((value.value, value.changed_at, value.durability), (11, rev(2), Durability::MEDIUM));
    assert!(slot.peek(rev(5)).is_none());
    let without_value = slot_with(memo(None, 4, 2, Durability::MEDIUM, MemoInputs::NoInputs));
    assert!(without_value.peek(rev(4)).is_none());
}

#[test]
fn probe_of_fresh_memo_is_up_to_date() {
    let mut slot = slot_with(memo(Some(11), 4, 2, Durability::LOW, recorded(&[1])));
    let mut graph = WaitGraph::new();
    match slot.probe(&mut graph, worker(0), rev(4)) {
        ProbeState::UpToDate(Ready::Value(value)) => {
            assert_eq!((value.value, value.changed_at, value.durability), (11, rev(2), Durability::LOW));
        }
        _ => panic!("expected the memoized value"),
    }
    assert!(matches!(slot.probe(&mut graph, worker(0), rev(5)), ProbeState::StaleOrAbsent));
    assert!(matches!(slot.state, QueryState::Memoized(_)));
    let mut empty: Slot<u32> = Slot::new(key(1), MemoizationPolicy::AlwaysMemoizeValue);
    assert!(matches!(empty.probe(&mut graph, worker(0), rev(1)), ProbeState::StaleOrAbsent));
    assert!(graph.edges.is_empty());
}

#[test]
fn read_of_stale_slot_claims_it() {
    let mut slot = slot_with(memo(Some(11), 4, 2, Durability::LOW, recorded(&[1])));
    let mut graph = WaitGraph::new();
    let guard = claim(&mut slot, &mut graph, 5, 6);
    assert_eq!(guard.database_key, key(7));
    assert_eq!(guard.id, worker(5));
    assert_eq!(guard.old_value(), Some(&11));
    let old = guard.memo.as_ref().unwrap();
    assert_eq!((old.verified_at, old.changed_at), (rev(4), rev(2)));
    match &slot.state {
        QueryState::InProgress { id, .. } => assert_eq!(*id, worker(5)),
        _ => panic!("the slot was not claimed"),
    }
    assert_eq!(slot.waiting(), 0);
    assert!(slot.as_table_entry().unwrap().value.is_none());
}

#[test]
fn own_slot_read_again_is_a_cycle() {
    let mut slot: Slot<u32> = Slot::new(key(7), MemoizationPolicy::AlwaysMemoizeValue);
    let mut graph = WaitGraph::new();
    let _guard = claim(&mut slot, &mut graph, 5, 1);
    match slot.read(&mut graph, worker(5), rev(1)) {
        ReadStep::Ready(Ready::Cycle(detected)) => {
            assert_eq!(detected.from, worker(5));
            assert_eq!(detected.to, worker(5));
        }
        _ => panic!("expected a cycle"),
    }
    assert!(graph.edges.is_empty());
    assert_eq!(slot.waiting(), 0);
}

#[test]
fn validation_follows_durability_and_inputs() {
    // Nothing that durable changed since the memo was verified.
    let durable = memo(Some(1), 3, 1, Durability::HIGH, recorded(&[1, 2]));
    assert!(durable.check_durability(&registry_at(9, 5, 3)));
    assert!(matches!(durable.validate_memoized_value(&registry_at(9, 5, 3)), Validation::Verified));
    // Something that durable changed: the inputs decide.
    assert!(!durable.check_durability(&registry_at(9, 5, 4)));
    match durable.validate_memoized_value(&registry_at(9, 5, 4)) {
        Validation::CheckInputs(walk) => {
            assert_eq!(walk.inputs, vec![key(1), key(2)]);
            assert_eq!(walk.since(), rev(3));
            assert_eq!(walk.pending(), Some(key(1)));
        }
        _ => panic!("expected a walk over the inputs"),
    }
    let low = memo(Some(1), 3, 1, Durability::LOW, MemoInputs::NoInputs);
    assert!(low.check_durability(&registry_at(3, 1, 1)));
    assert!(!low.check_durability(&registry_at(4, 1, 1)));
    assert!(matches!(low.validate_memoized_value(&registry_at(4, 1, 1)), Validation::Verified));
    let untracked = memo(Some(1), 3, 1, Durability::LOW, MemoInputs::Untracked);
    assert!(untracked.has_untracked_input());
    assert!(!low.has_untracked_input());
    assert!(matches!(untracked.validate_memoized_value(&registry_at(4, 1, 1)), Validation::Stale));
    assert!(matches!(untracked.validate_memoized_value(&registry_at(3, 1, 1)), Validation::Verified));
    let no_value = memo(None, 3, 1, Durability::HIGH, MemoInputs::NoInputs);
    assert!(matches!(no_value.validate_memoized_value(&registry_at(3, 1, 1)), Validation::Stale));
}

#[test]
fn walk_asks_inputs_in_order_and_stops_at_first_change() {
    let mut walk = InputWalk::new(vec![key(4), key(2), key(9)], rev(3));
    assert_eq!(walk.pending(), Some(key(4)));
    walk.answer(false);
    assert_eq!(walk.pending(), Some(key(2)));
    walk.answer(true);
    assert_eq!(walk.pending(), None);
    assert!(walk.maybe_changed());
    assert_eq!(walk.position, 1);
    walk.answer(false);
    assert!(walk.maybe_changed());
    assert_eq!(walk.position, 1);

    let mut quiet = InputWalk::new(vec![key(4), key(2)], rev(3));
    quiet.answer(false);
    quiet.answer(false);
    assert_eq!(quiet.pending(), None);
    assert!(!quiet.maybe_changed());
    assert_eq!(quiet.position, 2);
    quiet.answer(true);
    assert!(!quiet.maybe_changed());
}

#[test]
fn mark_value_as_verified_moves_only_the_verification() {
    let mut m = memo(Some(8), 3, 2, Durability::MEDIUM, recorded(&[1]));
    let value = m.mark_value_as_verified(rev(6));
    assert_eq!((value.value, value.changed_at, value.durability), (8, rev(2), Durability::MEDIUM));
    assert_eq!((m.value, m.verified_at, m.changed_at, m.durability), (Some(8), rev(6), rev(2), Durability::MEDIUM));
    assert!(matches!(&m.inputs, MemoInputs::Recorded { inputs } if inputs == &vec![key(1)]));
}

#[test]
fn publish_validated_restores_the_memo_verified() {
    let mut slot = slot_with(memo(Some(11), 4, 2, Durability::LOW, recorded(&[1])));
    let mut graph = WaitGraph::new();
    let guard = claim(&mut slot, &mut graph, 5, 6);
    let done = slot.publish_validated(guard, &mut graph, rev(6));
    let value = done.outcome.unwrap();
    assert_eq!((value.value, value.changed_at, value.durability), (11, rev(2), Durability::LOW));
    assert_eq!(
        done.event,
        Event { runtime_id: worker(5), kind: EventKind::DidValidateMemoizedValue { database_key: key(7) } }
    );
    assert!(done.wake.waiters.is_empty());
    let handed = done.wake.result.unwrap();
    assert_eq!(handed.value.value, 11);
    assert!(handed.cycle.is_empty());
    let m = memo_of(&slot);
    assert_eq!((m.value, m.verified_at, m.changed_at), (Some(11), rev(6), rev(2)));
    // The next read in this revision takes the value as it is.
    assert!(matches!(slot.read(&mut graph, worker(5), rev(6)), ReadStep::Ready(Ready::Value(v)) if v.value == 11));
}

#[test]
fn publish_backdates_an_equal_value() {
    let mut slot = slot_with(memo(Some(11), 4, 2, Durability::LOW, recorded(&[1])));
    let mut graph = WaitGraph::new();
    let guard = claim(&mut slot, &mut graph, 5, 6);
    let done = slot.publish_computed(guard, &mut graph, result(11, Durability::MEDIUM, 6, Some(vec![1, 3])), None, rev(6));
    let value = done.outcome.unwrap();
    assert_eq!((value.value, value.changed_at, value.durability), (11, rev(2), Durability::MEDIUM));
    assert_eq!(done.event, Event { runtime_id: worker(5), kind: EventKind::DidExecuteQuery { database_key: key(7) } });
    let m = memo_of(&slot);
    assert_eq!((m.value, m.verified_at, m.changed_at, m.durability), (Some(11), rev(6), rev(2), Durability::MEDIUM));
    assert!(matches!(&m.inputs, MemoInputs::Recorded { inputs } if inputs == &vec![key(1), key(3)]));
}

#[test]
fn publish_does_not_backdate_a_different_or_less_durable_value() {
    let mut graph = WaitGraph::new();
    // Another value.
    let mut slot = slot_with(memo(Some(11), 4, 2, Durability::LOW, recorded(&[1])));
    let guard = claim(&mut slot, &mut graph, 5, 6);
    let done = slot.publish_computed(guard, &mut graph, result(12, Durability::LOW, 6, Some(vec![])), None, rev(6));
    assert_eq!(done.outcome.unwrap().changed_at, rev(6));
    assert_eq!(memo_of(&slot).changed_at, rev(6));
    assert!(matches!(memo_of(&slot).inputs, MemoInputs::NoInputs));
    // The same value, less durable than before.
    let mut slot = slot_with(memo(Some(11), 4, 2, Durability::HIGH, recorded(&[1])));
    let guard = claim(&mut slot, &mut graph, 5, 6);
    let done = slot.publish_computed(guard, &mut graph, result(11, Durability::MEDIUM, 6, None), None, rev(6));
    assert_eq!(done.outcome.unwrap().changed_at, rev(6));
    assert_eq!(memo_of(&slot).changed_at, rev(6));
    assert!(matches!(memo_of(&slot).inputs, MemoInputs::Untracked));
    // The old memo had lost its value: nothing to compare with.
    let mut slot = slot_with(memo(None, 4, 2, Durability::LOW, recorded(&[1])));
    let guard = claim(&mut slot, &mut graph, 5, 6);
    let done = slot.publish_computed(guard, &mut graph, result(11, Durability::LOW, 6, Some(vec![1])), None, rev(6));
    assert_eq!(done.outcome.unwrap().changed_at, rev(6));
    // Whoever says the values are equal decides.
    let mut slot = slot_with(memo(Some(11), 4, 2, Durability::LOW, recorded(&[1])));
    let guard = claim(&mut slot, &mut graph, 5, 6);
    let done = slot.publish_with(guard, &mut graph, result(12, Durability::LOW, 6, Some(vec![1])), None, true, rev(6));
    let value = done.outcome.unwrap();
    assert_eq!((value.value, value.changed_at), (12, rev(2)));
}

#[test]
fn publish_after_cycle_uses_recovery_or_fails() {
    let mut graph = WaitGraph::new();
    let cycle = vec![key(7), key(8)];
    // With a recovery value.
    let mut slot: Slot<u32> = Slot::new(key(7), MemoizationPolicy::AlwaysMemoizeValue);
    let guard = claim(&mut slot, &mut graph, 5, 6);
    let mut run = result(99, Durability::HIGH, 6, Some(vec![8]));
    run.cycle = cycle.clone();
    assert!(run.is_cycle());
    let done = slot.publish_computed(guard, &mut graph, run, Some(0), rev(6));
    assert_eq!(done.outcome.unwrap().value, 0);
    assert_eq!(done.wake.result.unwrap().cycle, cycle);
    assert_eq!(memo_of(&slot).value, Some(0));
    // Without one, an empty slot stays empty.
    let mut slot: Slot<u32> = Slot::new(key(7), MemoizationPolicy::AlwaysMemoizeValue);
    let guard = claim(&mut slot, &mut graph, 5, 6);
    let mut run = result(99, Durability::HIGH, 6, Some(vec![8]));
    run.cycle = cycle.clone();
    let done = slot.publish_computed(guard, &mut graph, run, None, rev(6));
    let err = done.outcome.unwrap_err();
    assert_eq!(err.cycle, cycle);
    assert_eq!((err.changed_at, err.durability), (rev(6), Durability::HIGH));
    assert!(done.wake.result.is_none());
    assert!(matches!(slot.state, QueryState::NotComputed));
    // Without one, a slot that had a memo gets it back as it was.
    let mut slot = slot_with(memo(Some(11), 4, 2, Durability::LOW, recorded(&[1])));
    let guard = claim(&mut slot, &mut graph, 5, 6);
    let mut run = result(99, Durability::HIGH, 6, Some(vec![8]));
    run.cycle = cycle.clone();
    let done = slot.publish_computed(guard, &mut graph, run, None, rev(6));
    assert!(done.outcome.is_err());
    let m = memo_of(&slot);
    assert_eq!((m.value, m.verified_at, m.changed_at), (Some(11), rev(4), rev(2)));
}

#[test]
fn giving_up_releases_the_slot() {
    let mut graph = WaitGraph::new();
    let mut slot: Slot<u32> = Slot::new(key(7), MemoizationPolicy::AlwaysMemoizeValue);
    let mut guard = claim(&mut slot, &mut graph, 5, 6);
    let wake = guard.overwrite_placeholder(&mut slot, &mut graph, None);
    assert!(wake.result.is_none());
    assert!(wake.waiters.is_empty());
    assert!(matches!(slot.state, QueryState::NotComputed));
    assert!(guard.memo.is_none());
    // A worker that panics leaves the slot empty, whatever it held.
    let mut slot = slot_with(memo(Some(11), 4, 2, Durability::LOW, recorded(&[1])));
    let guard = claim(&mut slot, &mut graph, 5, 6);
    let wake = guard.abandon(&mut slot, &mut graph);
    assert!(wake.result.is_none());
    assert!(matches!(slot.state, QueryState::NotComputed));
}

#[test]
fn evict_drops_the_value_unless_untracked() {
    let mut slot = slot_with(memo(Some(11), 4, 2, Durability::LOW, recorded(&[1])));
    slot.evict();
    let m = memo_of(&slot);
    assert_eq!((m.value, m.verified_at, m.changed_at), (None, rev(4), rev(2)));
    assert!(matches!(&m.inputs, MemoInputs::Recorded { inputs } if inputs == &vec![key(1)]));
    let mut volatile = slot_with(memo(Some(11), 4, 2, Durability::LOW, MemoInputs::Untracked));
    volatile.evict();
    assert_eq!(memo_of(&volatile).value, Some(11));
    let mut empty: Slot<u32> = Slot::new(key(1), MemoizationPolicy::AlwaysMemoizeValue);
    empty.evict();
    assert!(matches!(empty.state, QueryState::NotComputed));
}

fn swept(inputs: MemoInputs, verified_at: u64, now: u64, discard_if: DiscardIf, discard_what: DiscardWhat) -> Slot<u32> {
    let mut slot = slot_with(memo(Some(11), verified_at, 2, Durability::LOW, inputs));
    slot.sweep(rev(now), SweepStrategy { discard_if, discard_what });
    slot
}

#[test]
fn sweep_discards_by_strategy() {
    let (never, outdated, always) = (DiscardIf::Never, DiscardIf::Outdated, DiscardIf::Always);
    let (nothing, values, everything) = (DiscardWhat::Nothing, DiscardWhat::Values, DiscardWhat::Everything);
    // outdated memos go under both strategies.
    assert_eq!(memo_of(&swept(recorded(&[1]), 4, 5, outdated, values)).value, None);
    assert_eq!(memo_of(&swept(recorded(&[1]), 4, 5, always, values)).value, None);
    assert!(matches!(swept(recorded(&[1]), 4, 5, outdated, everything).state, QueryState::NotComputed));
    assert!(matches!(swept(recorded(&[1]), 4, 5, always, everything).state, QueryState::NotComputed));
    // Current memos go only under `always`.
    assert_eq!(memo_of(&swept(recorded(&[1]), 5, 5, outdated, values)).value, Some(11));
    assert_eq!(memo_of(&swept(recorded(&[1]), 5, 5, outdated, everything)).value, Some(11));
    assert_eq!(memo_of(&swept(recorded(&[1]), 5, 5, always, values)).value, None);
    assert!(matches!(swept(recorded(&[1]), 5, 5, always, everything).state, QueryState::NotComputed));
    // A current memo with untracked inputs never goes.
    assert_eq!(memo_of(&swept(MemoInputs::Untracked, 5, 5, always, values)).value, Some(11));
    assert_eq!(memo_of(&swept(MemoInputs::Untracked, 5, 5, always, everything)).value, Some(11));
    // An outdated one does.
    assert_eq!(memo_of(&swept(MemoInputs::Untracked, 4, 5, always, values)).value, None);
    assert!(matches!(swept(MemoInputs::Untracked, 4, 5, outdated, everything).state, QueryState::NotComputed));
    // nothing goes under `never` or `nothing`.
    assert_eq!(memo_of(&swept(recorded(&[1]), 4, 5, never, everything)).value, Some(11));
    assert_eq!(memo_of(&swept(recorded(&[1]), 4, 5, always, nothing)).value, Some(11));
    // What stays keeps its stamps and inputs.
    let kept = swept(recorded(&[1, 2]), 4, 5, always, values);
    let m = memo_of(&kept);
    assert_eq!((m.verified_at, m.changed_at, m.durability), (rev(4), rev(2), Durability::LOW));
    assert!(matches!(&m.inputs, MemoInputs::Recorded { inputs } if inputs == &vec![key(1), key(2)]));
}

#[test]
fn sweep_leaves_a_slot_in_progress_alone() {
    let mut graph = WaitGraph::new();
    let mut slot: Slot<u32> = Slot::new(key(7), MemoizationPolicy::AlwaysMemoizeValue);
    let _guard = claim(&mut slot, &mut graph, 5, 6);
    slot.sweep(rev(6), SweepStrategy::new().discard_everything().sweep_all_revisions());
    assert!(matches!(slot.state, QueryState::InProgress { .. }));
    slot.evict();
    assert!(matches!(slot.state, QueryState::InProgress { .. }));
    assert_eq!(slot.invalidate(), None);
    assert!(matches!(slot.state, QueryState::InProgress { .. }));
}

#[test]
fn sweep_strategy_builders() {
    let never = SweepStrategy::new();
    assert_eq!(never, SweepStrategy { discard_if: DiscardIf::Never, discard_what: DiscardWhat::Nothing });
    assert!(!never.discards_something());
    assert_eq!(
        SweepStrategy::discard_outdated(),
        SweepStrategy { discard_if: DiscardIf::Outdated, discard_what: DiscardWhat::Values }
    );
    assert!(SweepStrategy::discard_outdated().discards_something());
    assert_eq!(never.discard_values().discard_what, DiscardWhat::Values);
    assert_eq!(never.discard_everything().discard_values().discard_what, DiscardWhat::Everything);
    assert_eq!(never.sweep_outdated().discard_if, DiscardIf::Outdated);
    assert_eq!(never.sweep_all_revisions().sweep_outdated().discard_if, DiscardIf::Always);
    assert!(!never.sweep_all_revisions().discards_something());
    assert!(never.sweep_all_revisions().discard_values().discards_something());
}

#[test]
fn invalidate_forgets_inputs_and_reports_durability() {
    let mut slot = slot_with(memo(Some(11), 4, 2, Durability::HIGH, recorded(&[1])));
    assert_eq!(slot.invalidate(), Some(Durability::HIGH));
    let m = memo_of(&slot);
    assert!(m.has_untracked_input());
    assert_eq!((m.value, m.verified_at, m.changed_at, m.durability), (Some(11), rev(4), rev(2), Durability::HIGH));
    let mut empty: Slot<u32> = Slot::new(key(1), MemoizationPolicy::AlwaysMemoizeValue);
    assert_eq!(empty.invalidate(), None);
    // After the bump that goes with it, the value is lost.
    let mut registry = registry_at(4, 1, 1);
    registry.bump(Durability::HIGH);
    assert!(matches!(memo_of(&slot).validate_memoized_value(&registry), Validation::Stale));
}

#[test]
fn slot_durability_falls_back_to_low() {
    let slot = slot_with(memo(Some(11), 4, 2, Durability::HIGH, recorded(&[1])));
    assert_eq!(slot.durability(&registry_at(9, 9, 4)), Durability::HIGH);
    assert_eq!(slot.durability(&registry_at(9, 9, 5)), Durability::LOW);
    let medium = slot_with(memo(Some(11), 4, 2, Durability::MEDIUM, recorded(&[1])));
    assert_eq!(medium.durability(&registry_at(9, 4, 1)), Durability::MEDIUM);
    assert_eq!(medium.durability(&registry_at(9, 5, 1)), Durability::LOW);
}

fn ask(slot: &mut Slot<u32>, registry: &Registry, revision: u64) -> ChangeProbe {
    let mut graph = WaitGraph::new();
    slot.maybe_changed_since(&mut graph, worker(0), registry, rev(revision), registry.current())
}

#[test]
fn maybe_changed_since_answers_from_the_memo() {
    let now = registry_at(6, 1, 1);
    // Empty: changed.
    let mut empty: Slot<u32> = Slot::new(key(1), MemoizationPolicy::AlwaysMemoizeValue);
    assert!(matches!(ask(&mut empty, &now, 3), ChangeProbe::Answer(true)));
    // Verified now: the stamp decides.
    let mut fresh = slot_with(memo(Some(1), 6, 4, Durability::LOW, recorded(&[1])));
    assert!(matches!(ask(&mut fresh, &now, 3), ChangeProbe::Answer(true)));
    assert!(matches!(ask(&mut fresh, &now, 4), ChangeProbe::Answer(false)));
    // Durable enough: verified on the spot, and the stamp decides.
    let mut durable = slot_with(memo(Some(1), 5, 4, Durability::HIGH, recorded(&[1])));
    assert!(matches!(ask(&mut durable, &now, 3), ChangeProbe::Answer(true)));
    assert_eq!(memo_of(&durable).verified_at, rev(6));
    let mut durable = slot_with(memo(Some(1), 5, 4, Durability::HIGH, recorded(&[1])));
    assert!(matches!(ask(&mut durable, &now, 4), ChangeProbe::Answer(false)));
    assert_eq!(memo_of(&durable).verified_at, rev(6));
    // No inputs: the same.
    let mut constant = slot_with(memo(Some(1), 5, 4, Durability::LOW, MemoInputs::NoInputs));
    assert!(matches!(ask(&mut constant, &now, 4), ChangeProbe::Answer(false)));
    assert_eq!(memo_of(&constant).verified_at, rev(6));
    // Untracked inputs: changed, and untouched.
    let mut volatile = slot_with(memo(Some(1), 5, 4, Durability::LOW, MemoInputs::Untracked));
    assert!(matches!(ask(&mut volatile, &now, 5), ChangeProbe::Answer(true)));
    assert_eq!(memo_of(&volatile).verified_at, rev(5));
    // Known inputs and a value: a read finds out.
    let mut valued = slot_with(memo(Some(1), 5, 4, Durability::LOW, recorded(&[1, 2])));
    assert!(matches!(ask(&mut valued, &now, 5), ChangeProbe::Read));
    assert_eq!(memo_of(&valued).verified_at, rev(5));
    // Known inputs without a value: the asker asks them, since its own revision.
    let mut bare = slot_with(memo(None, 5, 4, Durability::LOW, recorded(&[1, 2])));
    match ask(&mut bare, &now, 3) {
        ChangeProbe::CheckInputs(walk) => {
            assert_eq!(walk.inputs, vec![key(1), key(2)]);
            assert_eq!(walk.since(), rev(3));
        }
        _ => panic!("expected a walk over the inputs"),
    }
}

#[test]
fn settle_touches_only_a_stale_memo() {
    let mut changed = slot_with(memo(None, 5, 4, Durability::LOW, recorded(&[1])));
    assert!(changed.maybe_changed_since_settle(rev(6), true));
    assert!(matches!(changed.state, QueryState::NotComputed));
    let mut unchanged = slot_with(memo(None, 5, 4, Durability::LOW, recorded(&[1])));
    assert!(!unchanged.maybe_changed_since_settle(rev(6), false));
    assert_eq!(memo_of(&unchanged).verified_at, rev(6));
    // Somebody verified it meanwhile: hands off.
    let mut verified = slot_with(memo(None, 6, 4, Durability::LOW, recorded(&[1])));
    assert!(verified.maybe_changed_since_settle(rev(6), true));
    assert_eq!(memo_of(&verified).verified_at, rev(6));
    let mut empty: Slot<u32> = Slot::new(key(1), MemoizationPolicy::AlwaysMemoizeValue);
    assert!(!empty.maybe_changed_since_settle(rev(6), false));
    assert!(matches!(empty.state, QueryState::NotComputed));
}

#[test]
fn memo_inputs_from_dependencies() {
    assert!(matches!(MemoInputs::from_dependencies(None), MemoInputs::Untracked));
    assert!(matches!(MemoInputs::from_dependencies(Some(vec![])), MemoInputs::NoInputs));
    assert!(matches!(
        MemoInputs::from_dependencies(Some(vec![key(2), key(1)])),
        MemoInputs::Recorded { inputs } if inputs == vec![key(2), key(1)]
    ));
}

#[test]
fn run_that_began_now_changed_now() {
    let mut frame = ActiveQuery::new(key(7), rev(6));
    frame.add_read(key(1), Durability::HIGH, rev(2));
    frame.add_read(key(2), Durability::MEDIUM, rev(4));
    let run = frame.complete_as_computed(5u32);
    assert_eq!(run.changed_at, rev(6));
    assert_eq!(run.durability, Durability::MEDIUM);
    assert_eq!(run.dependencies, Some(vec![key(1), key(2)]));
}
