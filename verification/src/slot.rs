//! The slot: the cache cell of one query on one key.

use vstd::prelude::*;
use crate::durability::Durability;
use crate::key::{DatabaseKeyIndex, RuntimeId};
use crate::memo::{Memo, MemoInputs, MemoView};
use crate::revision::{Registry, Revision};
use crate::stamped::StampedValue;
use crate::sweep::{DiscardIf, DiscardWhat, SweepStrategy};
use crate::waiters::{queued, WaitQueue};

verus! {

/// Whether a slot keeps the values of its query, or only what they were
/// computed from.
#[derive(Clone, Copy, Debug, PartialEq, Eq, Structural)]
pub enum MemoizationPolicy {
    /// The slot keeps the value.
    AlwaysMemoizeValue,
    /// The slot keeps only the inputs and the stamps of the value.
    NeverMemoizeValue,
}

/// What a slot holds.
pub enum QueryState<V> {
    /// Nothing: the query was never run on this key, or its memo was
    /// discarded.
    NotComputed,
    /// The worker `id` is running the query; the workers in `waiting` wait
    /// for it to finish.
    InProgress { id: RuntimeId, waiting: WaitQueue },
    /// The memo of the last run.
    Memoized(Memo<V>),
}

/// A [`QueryState`] as a mathematical value.
pub enum StateView<V> {
    NotComputed,
    InProgress { id: RuntimeId, waiting: Seq<usize> },
    Memoized(MemoView<V>),
}

impl<V> View for QueryState<V> {
    type V = StateView<V>;

    open spec fn view(&self) -> StateView<V> {
        match self {
            QueryState::NotComputed => StateView::NotComputed,
            QueryState::InProgress { id, waiting } => StateView::InProgress { id: *id, waiting: queued(*waiting) },
            QueryState::Memoized(memo) => StateView::Memoized(memo@),
        }
    }
}

/// The most workers a slot lets wait for it at a time.
pub const MAX_WAITERS: usize = 0x1000_0000;

impl<V> StateView<V> {
    /// A memo's revisions are in order and not later than `now`, and no more
    /// workers wait than a slot can hold.
    pub open spec fn wf(self, now: Revision) -> bool {
        match self {
            StateView::NotComputed => true,
            StateView::InProgress { id, waiting } => waiting.len() <= MAX_WAITERS,
            StateView::Memoized(memo) => memo.wf(now),
        }
    }

    /// The value a reader may take without further ado: the memoized value,
    /// if there is one and the memo was verified in revision `now`.
    pub open spec fn fresh_value(self, now: Revision) -> Option<StampedValue<V>> {
        match self {
            StateView::Memoized(memo) => if memo.value is Some && memo.verified_at == now {
                Some(memo.stamped())
            } else {
                None
            },
            _ => None,
        }
    }

    /// The state after the slot's value was evicted: a memo loses its value,
    /// unless its query read something untracked.
    pub open spec fn evict(self) -> StateView<V> {
        match self {
            StateView::Memoized(memo) => if memo.has_untracked_input() {
                self
            } else {
                StateView::Memoized(memo.without_value())
            },
            _ => self,
        }
    }

    /// Whether a sweep with `strategy` in revision `now` discards from this
    /// state.  It leaves alone what is not a memo, a memo verified in `now`
    /// when only outdated ones are to go, and a memo verified in `now` whose
    /// query read something untracked.
    pub open spec fn swept(self, now: Revision, strategy: SweepStrategy) -> bool {
        match self {
            StateView::Memoized(memo) => {
                &&& strategy.discard_if != DiscardIf::Never
                &&& strategy.discard_what != DiscardWhat::Nothing
                &&& !(memo.verified_at == now && (strategy.discard_if == DiscardIf::Outdated || memo.has_untracked_input()))
            },
            _ => false,
        }
    }

    /// The state after a sweep with `strategy` in revision `now`.
    pub open spec fn sweep(self, now: Revision, strategy: SweepStrategy) -> StateView<V> {
        if self.swept(now, strategy) {
            match strategy.discard_what {
                DiscardWhat::Everything => StateView::NotComputed,
                _ => StateView::Memoized(self->Memoized_0.without_value()),
            }
        } else {
            self
        }
    }

    /// The state after the slot was invalidated: a memo forgets its inputs.
    pub open spec fn invalidate(self) -> StateView<V> {
        match self {
            StateView::Memoized(memo) => StateView::Memoized(memo.untracked()),
            _ => self,
        }
    }

    /// How durable the slot's value is known to be: as the memo says, if
    /// nothing that durable changed since the memo was verified; else, and
    /// without a memo, `LOW`.
    pub open spec fn durability(self, registry: Registry) -> Durability {
        match self {
            StateView::Memoized(memo) => if memo.check_durability(registry) {
                memo.durability
            } else {
                Durability::LOW
            },
            _ => Durability::LOW,
        }
    }
}

/// The cache cell of one query on one key.
pub struct Slot<V> {
    /// Which slot of the database this is.
    pub key: DatabaseKeyIndex,
    /// What the slot holds.
    pub state: QueryState<V>,
    /// Whether the slot keeps values.
    pub policy: MemoizationPolicy,
}

/// A [`Slot`] as a mathematical value.
pub struct SlotView<V> {
    pub key: DatabaseKeyIndex,
    pub state: StateView<V>,
    pub policy: MemoizationPolicy,
}

impl<V> View for Slot<V> {
    type V = SlotView<V>;

    open spec fn view(&self) -> SlotView<V> {
        SlotView { key: self.key, state: self.state@, policy: self.policy }
    }
}

/// A key of a query's table with the value its slot holds, if any.
#[derive(Debug)]
pub struct TableEntry<V> {
    pub key: DatabaseKeyIndex,
    pub value: Option<V>,
}

/// `copy` is a clone of `source`, where there is something to clone.
pub open spec fn option_cloned<V: Clone>(source: Option<V>, copy: Option<V>) -> bool {
    match source {
        Some(v) => copy is Some && cloned(v, copy->0),
        None => copy is None,
    }
}

/// `copy` is a clone of `source`, stamps and all, where there is something
/// to clone.
pub open spec fn stamped_cloned<V: Clone>(source: Option<StampedValue<V>>, copy: Option<StampedValue<V>>) -> bool {
    match source {
        Some(v) => copy is Some && v.cloned_as(copy->0),
        None => copy is None,
    }
}

impl<V> Slot<V> {
    /// See [`StateView::wf`].
    pub open spec fn wf(self, now: Revision) -> bool {
        self@.state.wf(now)
    }

    /// An empty slot for `key`.
    pub fn new(key: DatabaseKeyIndex, policy: MemoizationPolicy) -> (slot: Slot<V>)
        ensures
            slot@ == (SlotView { key, state: StateView::<V>::NotComputed, policy }),
    {
        Slot { key, state: QueryState::NotComputed, policy }
    }

    /// Which slot of the database this is.
    pub fn database_key(&self) -> (key: DatabaseKeyIndex)
        ensures
            key == self@.key,
    {
        self.key
    }

    /// Whether the slot keeps the values of its query.
    pub fn should_memoize_value(&self) -> (keep: bool)
        ensures
            keep == (self@.policy == MemoizationPolicy::AlwaysMemoizeValue),
    {
        match self.policy {
            MemoizationPolicy::AlwaysMemoizeValue => true,
            MemoizationPolicy::NeverMemoizeValue => false,
        }
    }

    /// A copy of the memoized value, if the slot has one that was verified
    /// in revision `revision_now`.  Runs nothing, waits for nobody, changes
    /// nothing.
    pub fn peek(&self, revision_now: Revision) -> (value: Option<StampedValue<V>>) where V: Clone
        ensures
            stamped_cloned(self@.state.fresh_value(revision_now), value),
    {
        if let QueryState::Memoized(memo) = &self.state {
            if let Some(value) = &memo.value {
                if memo.verified_at == revision_now {
                    return Some(
                        StampedValue { durability: memo.durability, changed_at: memo.changed_at, value: value.clone() },
                    );
                }
            }
        }
        None
    }

    /// How durable the slot's value is known to be.  Not to be asked of a
    /// slot whose query is running.
    pub fn durability(&self, registry: &Registry) -> (d: Durability)
        requires
            !(self@.state is InProgress),
        ensures
            d == self@.state.durability(*registry),
    {
        match &self.state {
            QueryState::NotComputed => Durability::LOW,
            QueryState::InProgress { .. } => Durability::LOW,
            QueryState::Memoized(memo) => {
                if memo.check_durability(registry) {
                    memo.durability
                } else {
                    Durability::LOW
                }
            },
        }
    }

    /// The slot as an entry of its query's table: nothing for an empty slot,
    /// the key alone while the query runs, the key with a copy of the value
    /// for a memo.
    pub fn as_table_entry(&self) -> (entry: Option<TableEntry<V>>) where V: Clone
        ensures
            self@.state is NotComputed <==> entry is None,
            entry is Some ==> entry->0.key == self@.key,
            self@.state is InProgress ==> entry->0.value is None,
            self@.state matches StateView::Memoized(memo) ==> option_cloned(memo.value, entry->0.value),
    {
        match &self.state {
            QueryState::NotComputed => None,
            QueryState::InProgress { .. } => Some(TableEntry { key: self.key, value: None }),
            QueryState::Memoized(memo) => {
                let value = match &memo.value {
                    Some(v) => Some(v.clone()),
                    None => None,
                };
                Some(TableEntry { key: self.key, value })
            },
        }
    }

    /// Drops the memoized value to make room, keeping what it was computed
    /// from.  A memo whose query read something untracked keeps its value:
    /// running the query again might give another.
    pub fn evict(&mut self)
        ensures
            final(self)@ == (SlotView { state: old(self)@.state.evict(), ..old(self)@ }),
    {
        if let QueryState::Memoized(memo) = &mut self.state {
            if memo.has_untracked_input() {
                return ;
            }
            memo.value = None;
        }
    }

    /// Discards from the slot what `strategy` says, in revision
    /// `revision_now`.  A slot whose query runs is left alone.
    pub fn sweep(&mut self, revision_now: Revision, strategy: SweepStrategy)
        requires
            old(self).wf(revision_now),
        ensures
            final(self)@ == (SlotView { state: old(self)@.state.sweep(revision_now, strategy), ..old(self)@ }),
            final(self).wf(revision_now),
    {
        let discard = match &self.state {
            QueryState::NotComputed => false,
            QueryState::InProgress { .. } => false,
            QueryState::Memoized(memo) => {
                let has_untracked_input = memo.has_untracked_input();
                let current = memo.verified_at == revision_now;
                match strategy.discard_if {
                    DiscardIf::Never => false,
                    DiscardIf::Outdated => !current,
                    DiscardIf::Always => !(has_untracked_input && current),
                }
            },
        };
        if discard {
            match strategy.discard_what {
                DiscardWhat::Nothing => {},
                DiscardWhat::Values => {
                    if let QueryState::Memoized(memo) = &mut self.state {
                        memo.value = None;
                    }
                },
                DiscardWhat::Everything => {
                    self.state = QueryState::NotComputed;
                },
            }
        }
    }

    /// Makes the slot forget what its value was computed from, so that the
    /// query runs again when the value is next asked for in a later revision.
    /// Returns the durability of the memo, if the slot holds one: the caller
    /// is to start a new revision in which a value that durable changed.
    pub fn invalidate(&mut self) -> (durability: Option<Durability>)
        ensures
            final(self)@ == (SlotView { state: old(self)@.state.invalidate(), ..old(self)@ }),
            durability == match old(self)@.state {
                StateView::Memoized(memo) => Some(memo.durability),
                _ => None,
            },
            forall|now: Revision| old(self).wf(now) ==> final(self).wf(now),
    {
        if let QueryState::Memoized(memo) = &mut self.state {
            memo.inputs = MemoInputs::Untracked;
            Some(memo.durability)
        } else {
            None
        }
    }
}

} // verus!
