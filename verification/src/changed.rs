//! Asking a slot whether its value changed after a given revision.

use vstd::prelude::*;
use crate::key::{copy_keys, RuntimeId};
use crate::memo::{InputWalk, InputsView, MemoInputs, MemoView, WalkView};
use crate::read::closes_cycle;
use crate::revision::{Registry, Revision};
use crate::slot::{QueryState, Slot, SlotView, StateView, MAX_WAITERS};
use crate::wait_graph::{Target, WaitGraph};

verus! {

/// What asking a slot whether it changed comes to.
pub enum ChangeProbe {
    /// The answer.
    Answer(bool),
    /// The worker `other` is computing the slot; the asker was entered
    /// among the workers that wait for it.  What the owner hands over gives
    /// the answer.
    Wait { other: RuntimeId },
    /// The slot has a value whose inputs may have changed: the asker is to
    /// go through the second phase of a read, which checks them and runs
    /// the query if need be.  What the read comes to gives the answer.
    Read,
    /// The slot has no value, only inputs: the asker is to ask them, and to
    /// settle the slot with what it found.
    CheckInputs(InputWalk),
}

/// [`ChangeProbe`] as a mathematical value.
pub enum ChangeProbeView {
    Answer(bool),
    Wait { other: RuntimeId },
    Read,
    CheckInputs(WalkView),
}

impl View for ChangeProbe {
    type V = ChangeProbeView;

    open spec fn view(&self) -> ChangeProbeView {
        match self {
            ChangeProbe::Answer(changed) => ChangeProbeView::Answer(*changed),
            ChangeProbe::Wait { other } => ChangeProbeView::Wait { other: *other },
            ChangeProbe::Read => ChangeProbeView::Read,
            ChangeProbe::CheckInputs(walk) => ChangeProbeView::CheckInputs(walk@),
        }
    }
}

impl<V> MemoView<V> {
    /// Whether a look at the memo in revision `now` shows, without asking
    /// its inputs, that the memo is good for `now`: it was verified in an
    /// earlier revision, and either nothing as durable changed since, or its
    /// query read nothing.
    pub open spec fn verifiable_unasked(self, registry: Registry, now: Revision) -> bool {
        &&& self.verified_at != now
        &&& (self.check_durability(registry) || self.inputs is NoInputs)
    }

    /// What asking the memo, in revision `now`, whether its value changed
    /// after `revision` comes to.  A memo verified in `now` knows.  So does
    /// one that is good for `now` without asking.  A memo of a query that
    /// read something untracked must be taken to have changed.  Otherwise
    /// the inputs decide: with a value in the memo a read checks them, and
    /// without one the asker does, for changes after `revision`.
    pub open spec fn changed_since(self, registry: Registry, revision: Revision, now: Revision) -> ChangeProbeView {
        if self.verified_at == now || self.verifiable_unasked(registry, now) {
            ChangeProbeView::Answer(self.changed_at@ > revision@)
        } else {
            match self.inputs {
                InputsView::Untracked => ChangeProbeView::Answer(true),
                InputsView::NoInputs => ChangeProbeView::Answer(self.changed_at@ > revision@),
                InputsView::Recorded { inputs } => if self.value is Some {
                    ChangeProbeView::Read
                } else {
                    ChangeProbeView::CheckInputs(WalkView::begin(inputs, revision))
                },
            }
        }
    }
}

impl<V> StateView<V> {
    /// The state after the slot was asked, in revision `now`, whether it
    /// changed: a memo that is good for `now` without asking its inputs is
    /// marked as verified in `now`; nothing else changes but the queue of a
    /// slot the asker begins to wait for.
    pub open spec fn asked(self, registry: Registry, now: Revision) -> StateView<V> {
        match self {
            StateView::Memoized(memo) => if memo.verifiable_unasked(registry, now) {
                StateView::Memoized(memo.verified(now))
            } else {
                self
            },
            _ => self,
        }
    }

    /// The state after an asker that went through the inputs of the slot
    /// settled it in revision `now`.  The slot is touched only if it still
    /// holds a memo that was not verified in `now` meanwhile: the memo is
    /// discarded if an input changed, and marked as verified in `now` if
    /// none did.
    pub open spec fn settle(self, now: Revision, maybe_changed: bool) -> StateView<V> {
        match self {
            StateView::Memoized(memo) => if memo.verified_at == now {
                self
            } else if maybe_changed {
                StateView::NotComputed
            } else {
                StateView::Memoized(memo.verified(now))
            },
            _ => self,
        }
    }
}

impl<V> Slot<V> {
    /// The worker `id` asks, in revision `revision_now`, whether the value
    /// of the slot changed after `revision`.
    ///
    /// An empty slot must be taken to have changed.  If another worker is
    /// computing the slot, the asker is set to wait for it; if that closes a
    /// cycle, the slot is taken to have changed.  A memo answers as
    /// [`MemoView::changed_since`] says, and is marked as verified where it
    /// is found good without asking its inputs.
    pub fn maybe_changed_since(
        &mut self,
        graph: &mut WaitGraph,
        id: RuntimeId,
        registry: &Registry,
        revision: Revision,
        revision_now: Revision,
    ) -> (probe: ChangeProbe)
        requires
            old(self)@.state matches StateView::InProgress { waiting, .. } ==> waiting.len() < MAX_WAITERS,
            old(graph).wf(),
            !old(graph)@.contains_key(id),
        ensures
            final(graph).wf(),
            final(self)@.key == old(self)@.key,
            final(self)@.policy == old(self)@.policy,
            probe@ matches ChangeProbeView::CheckInputs(walk) ==> walk.wf(),
            match old(self)@.state {
                StateView::NotComputed => {
                    &&& probe@ == ChangeProbeView::Answer(true)
                    &&& final(self)@.state == old(self)@.state
                    &&& final(graph)@ == old(graph)@
                },
                StateView::InProgress { id: other, waiting } => if closes_cycle(old(graph)@, id, other) {
                    &&& probe@ == ChangeProbeView::Answer(true)
                    &&& final(self)@.state == old(self)@.state
                    &&& final(graph)@ == old(graph)@
                } else {
                    &&& probe@ == (ChangeProbeView::Wait { other })
                    &&& final(self)@.state == (StateView::<V>::InProgress { id: other, waiting: waiting.push(id.counter) })
                    &&& final(graph)@ == old(graph)@.insert(id, Target { key: old(self)@.key, to: other })
                },
                StateView::Memoized(memo) => {
                    &&& probe@ == memo.changed_since(*registry, revision, revision_now)
                    &&& final(self)@.state == old(self)@.state.asked(*registry, revision_now)
                    &&& final(graph)@ == old(graph)@
                },
            },
            old(self).wf(revision_now) ==> final(self).wf(revision_now),
    {
        match &mut self.state {
            QueryState::NotComputed => ChangeProbe::Answer(true),
            QueryState::InProgress { .. } => {
                match self.register_with_in_progress_thread(graph, id) {
                    Ok(other) => ChangeProbe::Wait { other },
                    Err(_) => ChangeProbe::Answer(true),
                }
            },
            QueryState::Memoized(memo) => {
                if memo.verified_at == revision_now {
                    return ChangeProbe::Answer(memo.changed_at.gt(revision));
                }
                if memo.check_durability(registry) {
                    memo.verified_at = revision_now;
                    return ChangeProbe::Answer(memo.changed_at.gt(revision));
                }
                match &memo.inputs {
                    MemoInputs::Untracked => ChangeProbe::Answer(true),
                    MemoInputs::NoInputs => {
                        memo.verified_at = revision_now;
                        ChangeProbe::Answer(memo.changed_at.gt(revision))
                    },
                    MemoInputs::Recorded { inputs } => {
                        if memo.value.is_some() {
                            ChangeProbe::Read
                        } else {
                            ChangeProbe::CheckInputs(InputWalk::new(copy_keys(inputs), revision))
                        }
                    },
                }
            },
        }
    }

    /// An asker that went through the inputs of the slot, and found that one
    /// of them changed (`maybe_changed`) or that none did, settles the slot
    /// in revision `revision_now` and gets its answer.  Much may have
    /// happened to the slot while the inputs were asked, so the slot is
    /// touched only where [`StateView::settle`] says.
    pub fn maybe_changed_since_settle(&mut self, revision_now: Revision, maybe_changed: bool) -> (changed: bool)
        ensures
            changed == maybe_changed,
            final(self)@ == (SlotView { state: old(self)@.state.settle(revision_now, maybe_changed), ..old(self)@ }),
            old(self).wf(revision_now) ==> final(self).wf(revision_now),
    {
        let mut discard = false;
        if let QueryState::Memoized(memo) = &mut self.state {
            if memo.verified_at == revision_now {
            } else if maybe_changed {
                discard = true;
            } else {
                memo.verified_at = revision_now;
            }
        }
        if discard {
            self.state = QueryState::NotComputed;
        }
        maybe_changed
    }
}

} // verus!
