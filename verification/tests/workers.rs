//! Several workers: who waits for whom, who is woken, and which circles
//! are refused.

use salsa::durability::Durability;
use salsa::event::{Event, EventKind};
use salsa::key::{DatabaseKeyIndex, RuntimeId};
use salsa::active_query::ComputedQueryResult;
use salsa::changed::ChangeProbe;
use salsa::read::{PanicGuard, ReadStep, Ready};
use salsa::revision::{Registry, Revision};
use salsa::runtime::Runtime;
use salsa::slot::{MemoizationPolicy, QueryState, Slot};
use salsa::stamped::{changed_since, CycleDetected, CycleError, StampedValue, WaitResult};
use salsa::wait_graph::{Target, WaitGraph};

fn key(n: u32) -> DatabaseKeyIndex {
    DatabaseKeyIndex::new(0, 0, n)
}

fn worker(n: usize) -> RuntimeId {
    RuntimeId { counter: n }
}

fn rev(n: u64) -> Revision {
    Revision::from(n)
}

fn claim(slot: &mut Slot<u32>, graph: &mut WaitGraph, id: usize) -> PanicGuard<u32> {
    match slot.read(graph, worker(id), rev(1)) {
        ReadStep::Upgrade(guard) => guard,
        _ => panic!("the slot was not to be had"),
    }
}

fn run(value: u32) -> ComputedQueryResult<u32> {
    ComputedQueryResult { value, durability: Durability::LOW, changed_at: rev(1), dependencies: Some(vec![]), cycle: vec![] }
}

#[test]
fn try_block_on_refuses_circles() {
    let mut graph = WaitGraph::new();
    assert!(!graph.try_block_on(worker(1), key(0), worker(1)));
    assert!(graph.try_block_on(worker(1), key(10), worker(2)));
    assert!(graph.try_block_on(worker(2), key(20), worker(3)));
    assert_eq!(graph.blocked_on(worker(1)), Some(Target { key: key(10), to: worker(2) }));
    assert_eq!(graph.blocked_on(worker(2)), Some(Target { key: key(20), to: worker(3) }));
    assert_eq!(graph.blocked_on(worker(3)), None);
    // 3 -> 1 would close 1 -> 2 -> 3 -> 1; 3 -> 2 would close 2 -> 3 -> 2.
    assert!(!graph.try_block_on(worker(3), key(30), worker(1)));
    assert!(!graph.try_block_on(worker(3), key(30), worker(2)));
    assert_eq!(graph.blocked_on(worker(3)), None);
    assert_eq!(graph.edges.len(), 2);
    // 3 may wait for somebody outside the chain, and 5 for the head of the chain.
    assert!(graph.try_block_on(worker(3), key(30), worker(4)));
    assert!(graph.try_block_on(worker(5), key(50), worker(1)));
    assert!(!graph.try_block_on(worker(4), key(40), worker(5)));
}

#[test]
fn unblock_releases_only_the_waiters_of_that_slot() {
    let mut graph = WaitGraph::new();
    assert!(graph.try_block_on(worker(1), key(10), worker(9)));
    assert!(graph.try_block_on(worker(2), key(10), worker(9)));
    assert!(graph.try_block_on(worker(3), key(11), worker(9)));
    assert!(graph.try_block_on(worker(4), key(10), worker(8)));
    graph.unblock_queries_blocked_on(key(10), worker(9));
    assert_eq!(graph.blocked_on(worker(1)), None);
    assert_eq!(graph.blocked_on(worker(2)), None);
    assert_eq!(graph.blocked_on(worker(3)), Some(Target { key: key(11), to: worker(9) }));
    assert_eq!(graph.blocked_on(worker(4)), Some(Target { key: key(10), to: worker(8) }));
    // With the edge gone, the circle that was refused is none any more.
    assert!(graph.try_block_on(worker(9), key(90), worker(1)));
}

#[test]
fn cycle_path_lists_the_slots_along_the_chain() {
    let mut graph = WaitGraph::new();
    assert!(graph.try_block_on(worker(2), key(10), worker(3)));
    assert!(graph.try_block_on(worker(3), key(20), worker(1)));
    assert_eq!(graph.cycle_path(worker(1), worker(2)), vec![key(10), key(20)]);
    assert_eq!(graph.cycle_path(worker(1), worker(3)), vec![key(20)]);
    assert_eq!(graph.cycle_path(worker(1), worker(1)), Vec::<DatabaseKeyIndex>::new());
    // A chain that does not lead to the worker ends where nobody waits.
    assert_eq!(graph.cycle_path(worker(7), worker(2)), vec![key(10), key(20)]);
}

#[test]
fn waiters_queue_up_and_are_woken_in_order() {
    let mut graph = WaitGraph::new();
    let mut slot: Slot<u32> = Slot::new(key(7), MemoizationPolicy::AlwaysMemoizeValue);
    let guard = claim(&mut slot, &mut graph, 1);

    for reader in [4usize, 2, 9] {
        match slot.read(&mut graph, worker(reader), rev(1)) {
            ReadStep::Ready(Ready::Wait { other, event }) => {
                assert_eq!(other, worker(1));
                assert_eq!(
                    event,
                    Event {
                        runtime_id: worker(reader),
                        kind: EventKind::WillBlockOn { other_runtime_id: worker(1), database_key: key(7) },
                    }
                );
            }
            _ => panic!("expected to wait"),
        }
        assert_eq!(graph.blocked_on(worker(reader)), Some(Target { key: key(7), to: worker(1) }));
    }
    assert_eq!(slot.waiting(), 3);
    match &slot.state {
        QueryState::InProgress { id, .. } => assert_eq!(*id, worker(1)),
        _ => panic!("the slot is being computed"),
    }

    let done = slot.publish_computed(guard, &mut graph, run(42), None, rev(1));
    assert_eq!(done.outcome.unwrap().value, 42);
    assert_eq!(done.wake.waiters, vec![4, 2, 9]);
    let handed = done.wake.result.unwrap();
    assert_eq!(handed.value.value, 42);
    assert!(!handed.is_cycle());
    for reader in [4usize, 2, 9] {
        assert_eq!(graph.blocked_on(worker(reader)), None);
        let copy = handed.duplicate();
        assert_eq!(copy.into_read_result(None).unwrap().value, 42);
    }
    assert!(graph.edges.is_empty());
}

#[test]
fn asker_waits_for_a_slot_in_progress() {
    let mut graph = WaitGraph::new();
    let registry = Registry::new();
    let mut slot: Slot<u32> = Slot::new(key(7), MemoizationPolicy::AlwaysMemoizeValue);
    let guard = claim(&mut slot, &mut graph, 1);
    match slot.maybe_changed_since(&mut graph, worker(2), &registry, rev(1), rev(1)) {
        ChangeProbe::Wait { other } => assert_eq!(other, worker(1)),
        _ => panic!("expected to wait"),
    }
    // The owner asking its own slot is a cycle, which counts as a change.
    assert!(matches!(
        slot.maybe_changed_since(&mut graph, worker(1), &registry, rev(1), rev(1)),
        ChangeProbe::Answer(true)
    ));
    let wake = guard.report_unexpected_cycle(&mut slot, &mut graph);
    assert_eq!(wake.waiters, vec![2]);
    assert!(wake.result.is_none());
    assert_eq!(graph.blocked_on(worker(2)), None);
}

#[test]
fn wait_result_decides_for_the_waiter() {
    let value = |changed_at: u64| StampedValue { value: 5u32, durability: Durability::MEDIUM, changed_at: rev(changed_at) };
    let plain: WaitResult<u32, DatabaseKeyIndex> = WaitResult::new(value(4), vec![]);
    assert!(!plain.is_cycle());
    assert!(plain.maybe_changed_since(rev(3)));
    assert!(!plain.maybe_changed_since(rev(4)));
    let got = plain.into_read_result(Some(77)).unwrap();
    assert_eq!((got.value, got.changed_at, got.durability), (5, rev(4), Durability::MEDIUM));

    let cyclic: WaitResult<u32, DatabaseKeyIndex> = WaitResult::new(value(4), vec![key(1), key(2)]);
    assert!(cyclic.is_cycle());
    assert!(cyclic.maybe_changed_since(rev(4)));
    let recovered = cyclic.duplicate().into_read_result(Some(77)).unwrap();
    assert_eq!((recovered.value, recovered.changed_at, recovered.durability), (77, rev(4), Durability::MEDIUM));
    let err = cyclic.into_read_result(None).unwrap_err();
    assert_eq!(err.cycle, vec![key(1), key(2)]);
    assert_eq!((err.changed_at, err.durability), (rev(4), Durability::MEDIUM));
}

#[test]
fn read_result_decides_for_the_asker() {
    let ok: Result<StampedValue<u32>, CycleError<DatabaseKeyIndex>> =
        Ok(StampedValue { value: 1, durability: Durability::LOW, changed_at: rev(4) });
    assert!(changed_since(&ok, rev(3)));
    assert!(!changed_since(&ok, rev(4)));
    let err: Result<StampedValue<u32>, CycleError<DatabaseKeyIndex>> =
        Err(CycleError { cycle: vec![key(1)], changed_at: rev(1), durability: Durability::HIGH });
    assert!(changed_since(&err, rev(9)));
    let failed = CycleError { cycle: vec![key(1)], changed_at: rev(2), durability: Durability::HIGH };
    let recovered = failed.into_read_result(Some(3u32)).unwrap();
    assert_eq!((recovered.value, recovered.changed_at, recovered.durability), (3, rev(2), Durability::HIGH));
    let failed = CycleError { cycle: vec![key(1)], changed_at: rev(2), durability: Durability::HIGH };
    assert_eq!(failed.into_read_result(None::<u32>).unwrap_err().cycle, vec![key(1)]);
}

#[test]
fn circle_across_workers_is_detected_and_named() {
    // Worker 1 computes slot 10 and worker 2 computes slot 20.
    let mut graph = WaitGraph::new();
    let mut first = Runtime::new();
    let mut second = first.snapshot();
    assert_eq!(first.id(), worker(0));
    assert_eq!(second.id(), worker(1));
    let mut slot_a: Slot<u32> = Slot::new(key(10), MemoizationPolicy::AlwaysMemoizeValue);
    let mut slot_b: Slot<u32> = Slot::new(key(20), MemoizationPolicy::AlwaysMemoizeValue);
    let guard_a = match slot_a.read(&mut graph, first.id(), rev(1)) {
        ReadStep::Upgrade(guard) => guard,
        _ => panic!(),
    };
    first.prepare_query_execute(key(10));
    let guard_b = match slot_b.read(&mut graph, second.id(), rev(1)) {
        ReadStep::Upgrade(guard) => guard,
        _ => panic!(),
    };
    second.prepare_query_execute(key(20));

    // The second reads slot 10 and waits for the first.
    assert!(matches!(slot_a.read(&mut graph, second.id(), rev(1)), ReadStep::Ready(Ready::Wait { .. })));
    // The first reads slot 20: that would close the circle.
    let detected = match slot_b.read(&mut graph, first.id(), rev(1)) {
        ReadStep::Ready(Ready::Cycle(detected)) => detected,
        _ => panic!("expected a cycle"),
    };
    assert_eq!(detected, CycleDetected { from: worker(0), to: worker(1) });
    assert_eq!(slot_b.waiting(), 0);
    let err = first.report_unexpected_cycle(key(20), detected, &graph, rev(1));
    assert_eq!(err.cycle, vec![key(10), key(20)]);
    assert_eq!((err.changed_at, err.durability), (rev(1), Durability::HIGH));
    assert_eq!(first.stack.frames[0].cycle, vec![key(10), key(20)]);

    // Nobody recovers: the first fails its read and then its own slot.
    let read: Result<StampedValue<u32>, _> = err.into_read_result(None);
    assert!(read.is_err());
    let result = first.complete_query(0u32);
    assert!(result.is_cycle());
    let done = slot_a.publish_computed(guard_a, &mut graph, result, None, rev(1));
    assert!(done.outcome.is_err());
    assert!(matches!(slot_a.state, QueryState::NotComputed));
    // The second is woken with nothing in hand.
    assert_eq!(done.wake.waiters, vec![1]);
    assert!(done.wake.result.is_none());
    assert_eq!(graph.blocked_on(second.id()), None);
    let wake = guard_b.report_unexpected_cycle(&mut slot_b, &mut graph);
    assert!(wake.waiters.is_empty());
    assert!(matches!(slot_b.state, QueryState::NotComputed));
}
