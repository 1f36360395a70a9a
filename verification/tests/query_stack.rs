//! What a worker records of the queries it runs.

use salsa::active_query::ActiveQuery;
use salsa::durability::Durability;
use salsa::key::{contains_key, copy_keys, DatabaseKeyIndex, RuntimeId};
use salsa::query_stack::QueryStack;
use salsa::revision::Revision;
use salsa::stamped::CycleDetected;
use salsa::wait_graph::WaitGraph;

fn key(n: u32) -> DatabaseKeyIndex {
    DatabaseKeyIndex::new(1, 2, n)
}

fn rev(n: u64) -> Revision {
    Revision::from(n)
}

fn stack_of(keys: &[u32]) -> QueryStack {
    let mut stack = QueryStack::new();
    for k in keys {
        stack.push_query(key(*k), rev(3));
    }
    stack
}

fn cycles(stack: &QueryStack) -> Vec<Vec<DatabaseKeyIndex>> {
    stack.frames.iter().map(|frame| frame.cycle.clone()).collect()
}

#[test]
fn key_parts() {
    let k = DatabaseKeyIndex::new(1, 2, 3);
    assert_eq!((k.group_index(), k.query_index(), k.key_index()), (1, 2, 3));
    let keys = vec![key(1), key(5)];
    assert!(contains_key(&keys, key(5)));
    assert!(!contains_key(&keys, key(2)));
    assert!(!contains_key(&keys, DatabaseKeyIndex::new(0, 2, 5)));
    assert_eq!(copy_keys(&keys), keys);
}

#[test]
fn fresh_frame_is_as_durable_as_can_be() {
    let frame = ActiveQuery::new(key(1), rev(5));
    assert_eq!(frame.database_key_index, key(1));
    assert_eq!(frame.durability, Durability::HIGH);
    assert_eq!(frame.changed_at, rev(5));
    assert!(frame.dependencies.is_empty());
    assert!(!frame.untracked);
    assert!(frame.cycle.is_empty());
}

#[test]
fn reads_are_recorded_once_in_order() {
    let mut frame = ActiveQuery::new(key(1), rev(5));
    frame.add_read(key(3), Durability::HIGH, rev(1));
    frame.add_read(key(2), Durability::MEDIUM, rev(4));
    frame.add_read(key(3), Durability::HIGH, rev(1));
    frame.add_read(key(4), Durability::HIGH, rev(2));
    assert_eq!(frame.dependencies, vec![key(3), key(2), key(4)]);
    assert_eq!(frame.durability, Durability::MEDIUM);
    assert_eq!(frame.changed_at, rev(5));
    frame.add_read(key(9), Durability::LOW, rev(8));
    assert_eq!(frame.durability, Durability::LOW);
    assert_eq!(frame.changed_at, rev(8));
    let result = frame.complete_as_computed("value");
    assert_eq!(result.value, "value");
    assert_eq!(result.durability, Durability::LOW);
    assert_eq!(result.changed_at, rev(8));
    assert_eq!(result.dependencies, Some(vec![key(3), key(2), key(4), key(9)]));
    assert!(!result.is_cycle());
}

#[test]
fn untracked_read_forgets_the_dependencies() {
    let mut frame = ActiveQuery::new(key(1), rev(5));
    frame.add_read(key(3), Durability::HIGH, rev(1));
    frame.add_untracked_read(rev(5));
    frame.add_read(key(4), Durability::HIGH, rev(1));
    assert!(frame.untracked);
    assert_eq!(frame.durability, Durability::LOW);
    assert_eq!(frame.changed_at, rev(5));
    let result = frame.complete_as_computed(0u8);
    assert_eq!(result.dependencies, None);
    assert_eq!(result.durability, Durability::LOW);
}

#[test]
fn synthetic_read_lowers_only_the_durability() {
    let mut frame = ActiveQuery::new(key(1), rev(5));
    frame.add_synthetic_read(Durability::MEDIUM);
    assert_eq!(frame.durability, Durability::MEDIUM);
    frame.add_synthetic_read(Durability::HIGH);
    assert_eq!(frame.durability, Durability::MEDIUM);
    assert_eq!(frame.changed_at, rev(5));
    let result = frame.complete_as_computed(0u8);
    assert_eq!(result.dependencies, Some(vec![]));
}

#[test]
fn stack_reports_go_to_the_top_frame() {
    let mut stack = QueryStack::new();
    assert_eq!(stack.depth(), 0);
    assert_eq!(stack.active_query(), None);
    // Outside any query nothing is recorded.
    stack.report_query_read(key(1), Durability::LOW, rev(1));
    stack.report_untracked_read(rev(1));
    stack.report_synthetic_read(Durability::LOW);
    assert_eq!(stack.depth(), 0);

    stack.push_query(key(10), rev(2));
    stack.push_query(key(11), rev(2));
    assert_eq!(stack.depth(), 2);
    assert_eq!(stack.active_query(), Some(key(11)));
    assert!(stack.is_running(key(10)));
    assert!(!stack.is_running(key(12)));
    stack.report_query_read(key(1), Durability::MEDIUM, rev(1));
    stack.report_synthetic_read(Durability::LOW);
    assert!(stack.frames[0].dependencies.is_empty());
    assert_eq!(stack.frames[0].durability, Durability::HIGH);
    let inner = stack.pop_query(7u32);
    assert_eq!(inner.value, 7);
    assert_eq!(inner.dependencies, Some(vec![key(1)]));
    assert_eq!(inner.durability, Durability::LOW);
    assert_eq!(stack.active_query(), Some(key(10)));
    stack.report_untracked_read(rev(2));
    let outer = stack.pop_query(8u32);
    assert_eq!(outer.dependencies, None);
    assert_eq!(stack.depth(), 0);
}

#[test]
fn local_cycle_marks_from_the_innermost_frame() {
    let mut stack = stack_of(&[1, 2, 3, 2, 4]);
    let err = stack.report_local_cycle(key(2), rev(9));
    assert_eq!(err.cycle, vec![key(2), key(4)]);
    assert_eq!(err.changed_at, rev(9));
    assert_eq!(err.durability, Durability::HIGH);
    assert_eq!(cycles(&stack), vec![vec![], vec![], vec![], vec![key(2), key(4)], vec![key(2), key(4)]]);

    let mut stack = stack_of(&[1, 2, 3]);
    let err = stack.report_local_cycle(key(1), rev(9));
    assert_eq!(err.cycle, vec![key(1), key(2), key(3)]);
    assert_eq!(cycles(&stack), vec![err.cycle.clone(), err.cycle.clone(), err.cycle.clone()]);

    let mut stack = stack_of(&[1, 2, 3]);
    let err = stack.report_local_cycle(key(3), rev(9));
    assert_eq!(err.cycle, vec![key(3)]);
    assert_eq!(cycles(&stack), vec![vec![], vec![], vec![key(3)]]);
}

#[test]
fn remote_cycle_marks_the_members() {
    let mut stack = stack_of(&[1, 2, 3]);
    let err = stack.report_remote_cycle(key(7), vec![key(3), key(1)], rev(4));
    assert_eq!(err.cycle, vec![key(3), key(1), key(7)]);
    assert_eq!((err.changed_at, err.durability), (rev(4), Durability::HIGH));
    assert_eq!(cycles(&stack), vec![err.cycle.clone(), vec![], err.cycle.clone()]);
}

#[test]
fn unexpected_cycle_is_local_or_remote() {
    let me = RuntimeId { counter: 0 };
    let other = RuntimeId { counter: 1 };
    let mut graph = WaitGraph::new();
    assert!(graph.try_block_on(other, key(2), me));

    let mut stack = stack_of(&[1, 2]);
    let err = stack.report_unexpected_cycle(key(1), CycleDetected { from: me, to: me }, &graph, rev(3));
    assert_eq!(err.cycle, vec![key(1), key(2)]);

    let mut stack = stack_of(&[1, 2]);
    let err = stack.report_unexpected_cycle(key(5), CycleDetected { from: me, to: other }, &graph, rev(3));
    assert_eq!(err.cycle, vec![key(2), key(5)]);
    assert_eq!(cycles(&stack), vec![vec![], vec![key(2), key(5)]]);
}

#[test]
fn participants_are_marked_from_the_top_down() {
    let participants = vec![key(3), key(4)];
    let mut stack = stack_of(&[3, 1, 4, 3]);
    stack.mark_cycle_participants(&participants);
    assert_eq!(cycles(&stack), vec![vec![], vec![], participants.clone(), participants.clone()]);

    let mut stack = stack_of(&[3, 4, 1]);
    stack.mark_cycle_participants(&participants);
    assert_eq!(cycles(&stack), vec![vec![], vec![], vec![]]);

    let mut stack = stack_of(&[3, 4]);
    stack.mark_cycle_participants(&participants);
    assert_eq!(cycles(&stack), vec![participants.clone(), participants.clone()]);

    let mut stack = QueryStack::new();
    stack.mark_cycle_participants(&participants);
    assert_eq!(stack.depth(), 0);
}
