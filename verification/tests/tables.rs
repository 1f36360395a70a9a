//! Tables: of derived slots, of recent reads, of interned keys.

use salsa::durability::Durability;
use salsa::interned::InternTable;
use salsa::key::DatabaseKeyIndex;
use salsa::lru::Lru;
use salsa::memo::{Memo, MemoInputs};
use salsa::revision::Revision;
use salsa::slot::{MemoizationPolicy, QueryState};
use salsa::storage::DerivedStorage;
use salsa::sweep::SweepStrategy;

fn rev(n: u64) -> Revision {
    Revision::from(n)
}

#[test]
fn lru_without_capacity_lists_nothing() {
    let mut lru = Lru::new();
    assert_eq!(lru.record_use(3), None);
    assert_eq!(lru.record_use(4), None);
    assert!(lru.order.is_empty());
}

#[test]
fn lru_evicts_the_least_recently_read() {
    let mut lru = Lru::new();
    assert!(lru.set_lru_capacity(3).is_empty());
    assert_eq!(lru.record_use(1), None);
    assert_eq!(lru.record_use(2), None);
    assert_eq!(lru.record_use(3), None);
    assert_eq!(lru.order, vec![1, 2, 3]);
    assert_eq!(lru.record_use(1), None);
    assert_eq!(lru.order, vec![2, 3, 1]);
    assert_eq!(lru.record_use(4), Some(2));
    assert_eq!(lru.order, vec![3, 1, 4]);
    assert_eq!(lru.record_use(4), None);
    assert_eq!(lru.order, vec![3, 1, 4]);
    lru.forget(1);
    assert_eq!(lru.order, vec![3, 4]);
    lru.forget(9);
    assert_eq!(lru.order, vec![3, 4]);
    assert_eq!(lru.set_lru_capacity(1), vec![3, 4]);
    assert_eq!(lru.record_use(7), None);
    assert_eq!(lru.record_use(8), Some(7));
    assert_eq!(lru.order, vec![8]);
}

fn memo(value: u32, verified_at: u64) -> Memo<u32> {
    Memo {
        value: Some(value),
        verified_at: rev(verified_at),
        changed_at: rev(1),
        durability: Durability::LOW,
        inputs: MemoInputs::NoInputs,
    }
}

#[test]
fn storage_makes_slots_on_demand() {
    let mut storage: DerivedStorage<u32> = DerivedStorage::new(3, 5, MemoizationPolicy::NeverMemoizeValue);
    assert_eq!(storage.len(), 0);
    assert_eq!(storage.database_key(9), DatabaseKeyIndex::new(3, 5, 9));
    assert_eq!(storage.ensure_slot(2), 2);
    assert_eq!(storage.len(), 3);
    for (place, slot) in storage.slots.iter().enumerate() {
        assert_eq!(slot.database_key(), DatabaseKeyIndex::new(3, 5, place as u32));
        assert!(matches!(slot.state, QueryState::NotComputed));
        assert!(!slot.should_memoize_value());
    }
    storage.slots[1].state = QueryState::Memoized(memo(8, 1));
    assert_eq!(storage.ensure_slot(0), 0);
    assert_eq!(storage.ensure_slot(3), 3);
    assert_eq!(storage.len(), 4);
    assert!(matches!(storage.slots[1].state, QueryState::Memoized(_)));
    let entries = storage.entries();
    assert_eq!(entries.len(), 4);
    assert!(entries[0].is_none());
    let entry = entries[1].as_ref().unwrap();
    assert_eq!((entry.key, entry.value), (DatabaseKeyIndex::new(3, 5, 1), Some(8)));
    storage.purge();
    assert_eq!(storage.len(), 0);
}

#[test]
fn storage_sweeps_every_slot() {
    let mut storage: DerivedStorage<u32> = DerivedStorage::new(0, 0, MemoizationPolicy::AlwaysMemoizeValue);
    storage.ensure_slot(3);
    storage.slots[0].state = QueryState::Memoized(memo(10, 2));
    storage.slots[1].state = QueryState::Memoized(memo(11, 3));
    storage.slots[3].state = QueryState::Memoized(memo(13, 1));
    storage.sweep(rev(3), SweepStrategy::discard_outdated());
    let values: Vec<Option<Option<u32>>> = storage.entries().into_iter().map(|e| e.map(|e| e.value)).collect();
    assert_eq!(values, vec![Some(None), Some(Some(11)), None, Some(None)]);
    storage.sweep(rev(3), SweepStrategy::discard_outdated().discard_everything());
    let values: Vec<Option<Option<u32>>> = storage.entries().into_iter().map(|e| e.map(|e| e.value)).collect();
    assert_eq!(values, vec![None, Some(Some(11)), None, None]);
    storage.sweep(rev(3), SweepStrategy::new());
    assert_eq!(storage.entries()[1].as_ref().unwrap().value, Some(11));
}

#[test]
fn storage_evicts_by_recent_use() {
    let mut storage: DerivedStorage<u32> = DerivedStorage::new(0, 0, MemoizationPolicy::AlwaysMemoizeValue);
    storage.set_lru_capacity(1);
    storage.ensure_slot(1);
    storage.slots[0].state = QueryState::Memoized(memo(10, 3));
    storage.slots[1].state = QueryState::Memoized(memo(11, 3));
    storage.record_use(0, rev(3));
    assert_eq!(storage.entries()[0].as_ref().unwrap().value, Some(10));
    storage.record_use(1, rev(3));
    assert_eq!(storage.entries()[0].as_ref().unwrap().value, None);
    assert_eq!(storage.entries()[1].as_ref().unwrap().value, Some(11));
    assert_eq!(storage.lru.order, vec![1]);
}

#[test]
fn interning_gives_each_key_one_number() {
    let mut table = InternTable::new(2, 7);
    assert_eq!(table.len(), 0);
    assert!(table.find("a").is_none());
    assert!(table.lookup(0).is_none());
    assert!(table.maybe_changed_since(0, rev(9)));

    let a = table.intern("a", rev(1)).unwrap();
    assert_eq!((a.value, a.durability, a.changed_at), (0, Durability::HIGH, rev(1)));
    let b = table.intern("b", rev(3)).unwrap();
    assert_eq!((b.value, b.durability, b.changed_at), (1, Durability::HIGH, rev(3)));
    let again = table.intern("a", rev(5)).unwrap();
    assert_eq!((again.value, again.durability, again.changed_at), (0, Durability::HIGH, rev(1)));
    assert_eq!(table.len(), 2);
    assert_eq!(table.find("b"), Some(1));
    assert_eq!(table.find(""), None);

    let found = table.lookup(1).unwrap();
    assert_eq!((found.value.as_str(), found.durability, found.changed_at), ("b", Durability::HIGH, rev(3)));
    assert_eq!(table.lookup(0).unwrap().value, "a");
    assert!(table.lookup(2).is_none());
    assert!(table.maybe_changed_since(1, rev(2)));
    assert!(!table.maybe_changed_since(1, rev(3)));
    assert!(table.maybe_changed_since(2, rev(3)));
}
