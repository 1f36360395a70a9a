//! Revisions, durabilities, inputs, snapshots.

use salsa::durability::Durability;
use salsa::event::{Event, EventKind};
use salsa::input::{InputSlot, UnsetInput};
use salsa::key::{DatabaseKeyIndex, RuntimeId};
use salsa::memo::{Memo, MemoInputs};
use salsa::revision::{Registry, Revision};
use salsa::runtime::{Runtime, WriteStep};
use salsa::slot::{MemoizationPolicy, QueryState, Slot};

fn key(n: u32) -> DatabaseKeyIndex {
    DatabaseKeyIndex::new(0, 0, n)
}

fn rev(n: u64) -> Revision {
    Revision::from(n)
}

#[test]
fn durability_order() {
    assert_eq!(Durability::LOW.index(), 0);
    assert_eq!(Durability::MEDIUM.index(), 1);
    assert_eq!(Durability::HIGH.index(), 2);
    assert_eq!(Durability::max_durability(), Durability::HIGH);
    assert!(Durability::LOW.le(Durability::LOW));
    assert!(Durability::LOW.le(Durability::HIGH));
    assert!(!Durability::HIGH.le(Durability::MEDIUM));
    assert_eq!(Durability::HIGH.min(Durability::MEDIUM), Durability::MEDIUM);
    assert_eq!(Durability::LOW.min(Durability::MEDIUM), Durability::LOW);
    assert_eq!(Durability::HIGH.min(Durability::HIGH), Durability::HIGH);
    assert_eq!(Durability::HIGH.max(Durability::MEDIUM), Durability::HIGH);
    assert_eq!(Durability::LOW.max(Durability::MEDIUM), Durability::MEDIUM);
    assert_eq!(Durability::LOW.max(Durability::LOW), Durability::LOW);
}

#[test]
fn revision_order() {
    assert_eq!(Revision::before_time(), rev(0));
    assert_eq!(Revision::start(), rev(1));
    assert_eq!(rev(1).next(), rev(2));
    assert!(rev(1).le(rev(1)));
    assert!(rev(1).le(rev(2)));
    assert!(!rev(2).le(rev(1)));
    assert!(rev(2).gt(rev(1)));
    assert!(!rev(2).gt(rev(2)));
    assert_eq!(rev(2).max(rev(5)), rev(5));
    assert_eq!(rev(5).max(rev(2)), rev(5));
    assert!(Revision::before_time().le(Revision::start()));
}

#[test]
fn input_set_starts_a_revision() {
    let mut registry = Registry::new();
    let mut input: InputSlot<&str> = InputSlot::new(key(4));
    assert_eq!(input.database_key(), key(4));
    assert_eq!(input.read().unwrap_err(), UnsetInput { key: key(4) });
    assert!(input.maybe_changed_since(rev(1)));
    assert!(input.maybe_changed_since(rev(100)));

    let id = RuntimeId { counter: 0 };
    let event = input.set(&mut registry, id, "one", Durability::MEDIUM);
    assert_eq!(event, Event { runtime_id: id, kind: EventKind::DidChangeInput { database_key: key(4) } });
    assert_eq!(registry.current(), rev(2));
    assert_eq!(registry.last_changed(Durability::MEDIUM), rev(2));
    assert_eq!(registry.last_changed(Durability::HIGH), rev(1));
    let value = input.read().unwrap();
    assert_eq!((value.value, value.changed_at, value.durability), ("one", rev(2), Durability::MEDIUM));
    assert!(input.maybe_changed_since(rev(1)));
    assert!(!input.maybe_changed_since(rev(2)));

    // The new value is less durable; what depended on the old one hears of it.
    input.set(&mut registry, id, "two", Durability::LOW);
    let value = input.read().unwrap();
    assert_eq!((value.value, value.changed_at, value.durability), ("two", rev(3), Durability::LOW));
    assert_eq!(registry.last_changed(Durability::MEDIUM), rev(3));
    assert_eq!(registry.last_changed(Durability::HIGH), rev(1));
    assert!(input.maybe_changed_since(rev(2)));
    // From now on only the little durable changes.
    input.set(&mut registry, id, "three", Durability::LOW);
    assert_eq!(registry.current(), rev(4));
    assert_eq!(registry.last_changed(Durability::MEDIUM), rev(3));
}

#[test]
fn new_runtime() {
    let runtime = Runtime::new();
    assert_eq!(runtime.id(), RuntimeId { counter: 0 });
    assert_eq!(runtime.current_revision(), rev(1));
    assert_eq!(runtime.last_changed_revision(Durability::HIGH), rev(1));
    assert!(!runtime.is_current_revision_canceled());
    assert!(!runtime.query_in_progress());
}

#[test]
fn writes_wait_for_snapshots() {
    let mut writer = Runtime::new();
    let mut input: InputSlot<u32> = InputSlot::new(key(0));
    assert!(matches!(writer.set_input(&mut input, 1, Durability::LOW), WriteStep::Done(r) if r == rev(2)));

    let first = writer.snapshot();
    let second = writer.snapshot();
    assert_eq!(first.id(), RuntimeId { counter: 1 });
    assert_eq!(second.id(), RuntimeId { counter: 2 });
    assert_eq!(first.current_revision(), rev(2));
    assert!(!first.is_current_revision_canceled());
    assert_eq!(writer.snapshots, 2);

    // The write is held back, and the revision counts as canceled.
    assert!(matches!(writer.set_input(&mut input, 2, Durability::LOW), WriteStep::Blocked(2)));
    assert!(writer.is_current_revision_canceled());
    assert_eq!(writer.current_revision(), rev(2));
    assert_eq!(input.read().unwrap().value, 1);
    assert!(matches!(writer.synthetic_write(Durability::HIGH), WriteStep::Blocked(())));
    writer.release_snapshot();
    assert!(matches!(writer.set_input(&mut input, 2, Durability::LOW), WriteStep::Blocked(2)));
    writer.release_snapshot();
    assert_eq!(writer.snapshots, 0);

    // With the snapshots gone the write goes through, and the new revision is not canceled.
    assert!(matches!(writer.set_input(&mut input, 2, Durability::LOW), WriteStep::Done(r) if r == rev(3)));
    assert!(!writer.is_current_revision_canceled());
    assert_eq!(input.read().unwrap().value, 2);
    assert!(matches!(writer.synthetic_write(Durability::HIGH), WriteStep::Done(r) if r == rev(4)));
    assert_eq!(writer.last_changed_revision(Durability::HIGH), rev(4));
    writer.release_snapshot();
    assert_eq!(writer.snapshots, 0);
}

#[test]
fn runtime_invalidate_bumps_at_the_memo_durability() {
    let mut runtime = Runtime::new();
    let memo = Memo {
        value: Some(3u32),
        verified_at: rev(1),
        changed_at: rev(1),
        durability: Durability::MEDIUM,
        inputs: MemoInputs::NoInputs,
    };
    let mut slot = Slot { key: key(1), state: QueryState::Memoized(memo), policy: MemoizationPolicy::AlwaysMemoizeValue };
    assert!(matches!(runtime.invalidate(&mut slot), WriteStep::Done(r) if r == rev(2)));
    assert_eq!(runtime.last_changed_revision(Durability::MEDIUM), rev(2));
    assert_eq!(runtime.last_changed_revision(Durability::HIGH), rev(1));
    assert!(matches!(&slot.state, QueryState::Memoized(m) if m.has_untracked_input()));

    let mut empty: Slot<u32> = Slot::new(key(2), MemoizationPolicy::AlwaysMemoizeValue);
    assert!(matches!(runtime.invalidate(&mut empty), WriteStep::Done(r) if r == rev(3)));
    assert_eq!(runtime.last_changed_revision(Durability::MEDIUM), rev(2));

    let _snapshot = runtime.snapshot();
    let memo = Memo {
        value: Some(3u32),
        verified_at: rev(1),
        changed_at: rev(1),
        durability: Durability::MEDIUM,
        inputs: MemoInputs::NoInputs,
    };
    let mut slot = Slot { key: key(1), state: QueryState::Memoized(memo), policy: MemoizationPolicy::AlwaysMemoizeValue };
    assert!(matches!(runtime.invalidate(&mut slot), WriteStep::Blocked(())));
    assert!(matches!(&slot.state, QueryState::Memoized(m) if !m.has_untracked_input()));
    assert_eq!(runtime.current_revision(), rev(3));
    assert!(runtime.is_current_revision_canceled());
}

#[test]
fn runtime_records_for_the_running_query() {
    let mut runtime = Runtime::new();
    runtime.synthetic_write(Durability::LOW);
    runtime.prepare_query_execute(key(1));
    assert!(runtime.query_in_progress());
    runtime.report_query_read(key(2), Durability::HIGH, rev(1));
    runtime.report_synthetic_read(Durability::MEDIUM);
    let result = runtime.complete_query(10u32);
    assert_eq!(result.changed_at, rev(2));
    assert_eq!(result.durability, Durability::MEDIUM);
    assert_eq!(result.dependencies, Some(vec![key(2)]));

    runtime.prepare_query_execute(key(1));
    runtime.report_untracked_read();
    let result = runtime.complete_query(10u32);
    assert_eq!(result.changed_at, rev(2));
    assert_eq!(result.durability, Durability::LOW);
    assert_eq!(result.dependencies, None);

    runtime.prepare_query_execute(key(1));
    runtime.prepare_query_execute(key(2));
    runtime.mark_cycle_participants(&vec![key(2)]);
    assert!(runtime.complete_query(0u32).is_cycle());
    assert!(!runtime.complete_query(0u32).is_cycle());
}
