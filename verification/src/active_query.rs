//! What a worker records while it runs a query: the slots the query read,
//! the least durability among them, and the latest revision in which one of
//! them changed.

use vstd::prelude::*;
use crate::durability::Durability;
use crate::key::{contains_key, DatabaseKeyIndex};
use crate::revision::Revision;

verus! {

/// The record of one query that is being run.
#[derive(Debug)]
pub struct ActiveQuery {
    /// The slot whose query runs.
    pub database_key_index: DatabaseKeyIndex,
    /// The least durability among the values read so far.
    pub durability: Durability,
    /// The latest revision in which a value read so far changed; never
    /// earlier than the revision in which the query began to run.
    pub changed_at: Revision,
    /// The slots read so far, each once, in the order of their first read.
    pub dependencies: Vec<DatabaseKeyIndex>,
    /// Whether the query read something the engine cannot track.
    pub untracked: bool,
    /// The slots of the cycle the query was found to be part of; empty while
    /// no cycle was found.
    pub cycle: Vec<DatabaseKeyIndex>,
}

/// An [`ActiveQuery`] as a mathematical value.
pub struct FrameView {
    pub key: DatabaseKeyIndex,
    pub durability: Durability,
    pub changed_at: Revision,
    pub dependencies: Seq<DatabaseKeyIndex>,
    pub untracked: bool,
    pub cycle: Seq<DatabaseKeyIndex>,
}

/// One read of a query: the slot, and the stamps of the value it gave.
pub struct Read {
    pub input: DatabaseKeyIndex,
    pub durability: Durability,
    pub changed_at: Revision,
}

impl FrameView {
    /// The record of a query on `key` that begins to run in revision `now`.
    pub open spec fn fresh(key: DatabaseKeyIndex, now: Revision) -> FrameView {
        FrameView {
            key,
            durability: Durability::HIGH,
            changed_at: now,
            dependencies: Seq::empty(),
            untracked: false,
            cycle: Seq::empty(),
        }
    }

    /// No slot is recorded twice.
    pub open spec fn wf(self) -> bool {
        self.dependencies.no_duplicates()
    }

    /// The record after the query read `read.input`.
    pub open spec fn add_read(self, read: Read) -> FrameView {
        FrameView {
            durability: self.durability.spec_min(read.durability),
            changed_at: self.changed_at.spec_max(read.changed_at),
            dependencies: if self.untracked || self.dependencies.contains(read.input) {
                self.dependencies
            } else {
                self.dependencies.push(read.input)
            },
            ..self
        }
    }

    /// The record after the query read, in revision `now`, something the
    /// engine cannot track.
    pub open spec fn add_untracked_read(self, now: Revision) -> FrameView {
        FrameView { durability: Durability::LOW, changed_at: now, untracked: true, ..self }
    }

    /// The record after the query declared that it read outside state of
    /// durability `durability`.
    pub open spec fn add_synthetic_read(self, durability: Durability) -> FrameView {
        FrameView { durability: self.durability.spec_min(durability), ..self }
    }

    /// The record after the reads `reads`, in their order.
    pub open spec fn add_reads(self, reads: Seq<Read>) -> FrameView
        decreases reads.len(),
    {
        if reads.len() == 0 {
            self
        } else {
            self.add_reads(reads.drop_last()).add_read(reads.last())
        }
    }

    /// The record with `cycle` as its cycle.
    pub open spec fn with_cycle(self, cycle: Seq<DatabaseKeyIndex>) -> FrameView {
        FrameView { cycle, ..self }
    }

    /// The slots a memo made from this record depends on: none known when
    /// the query read something untracked.
    pub open spec fn tracked_dependencies(self) -> Option<Seq<DatabaseKeyIndex>> {
        if self.untracked {
            None
        } else {
            Some(self.dependencies)
        }
    }
}

impl View for ActiveQuery {
    type V = FrameView;

    open spec fn view(&self) -> FrameView {
        FrameView {
            key: self.database_key_index,
            durability: self.durability,
            changed_at: self.changed_at,
            dependencies: self.dependencies@,
            untracked: self.untracked,
            cycle: self.cycle@,
        }
    }
}

/// What running a query came to: its value, the stamps that its reads give
/// it, the slots it depends on, and the cycle it was found on, if any.
#[derive(Debug)]
pub struct ComputedQueryResult<V> {
    pub value: V,
    /// The least durability among the values read.
    pub durability: Durability,
    /// The latest revision in which a value read changed.
    pub changed_at: Revision,
    /// The slots read, each once, in the order of their first read; `None`
    /// when something untracked was read.
    pub dependencies: Option<Vec<DatabaseKeyIndex>>,
    /// The slots of the cycle the query was found on; empty without one.
    pub cycle: Vec<DatabaseKeyIndex>,
}

impl<V> ComputedQueryResult<V> {
    /// The dependencies as a mathematical value.
    pub open spec fn spec_dependencies(self) -> Option<Seq<DatabaseKeyIndex>> {
        match self.dependencies {
            Some(deps) => Some(deps@),
            None => None,
        }
    }

    /// This result is what the record `frame` and the value `value` come to.
    pub open spec fn completes(self, frame: FrameView, value: V) -> bool {
        &&& self.value == value
        &&& self.durability == frame.durability
        &&& self.changed_at == frame.changed_at
        &&& self.spec_dependencies() == frame.tracked_dependencies()
        &&& self.cycle@ == frame.cycle
    }

    /// Whether the query was found on a cycle, so that its recovery function
    /// has to supply the value.
    pub fn is_cycle(&self) -> (b: bool)
        ensures
            b == (self.cycle@.len() > 0),
    {
        self.cycle.len() > 0
    }
}

impl ActiveQuery {
    /// The record of a query on `database_key_index` that begins to run in
    /// revision `now`: nothing read yet, as durable as can be, changed no
    /// later than `now`.
    pub fn new(database_key_index: DatabaseKeyIndex, now: Revision) -> (frame: ActiveQuery)
        ensures
            frame@ == FrameView::fresh(database_key_index, now),
            frame@.wf(),
    {
        ActiveQuery {
            database_key_index,
            durability: Durability::max_durability(),
            changed_at: now,
            dependencies: Vec::new(),
            untracked: false,
            cycle: Vec::new(),
        }
    }

    /// Records that the query read the slot `input`, whose value has the
    /// given stamps.
    pub fn add_read(&mut self, input: DatabaseKeyIndex, durability: Durability, changed_at: Revision)
        requires
            old(self)@.wf(),
        ensures
            final(self)@ == old(self)@.add_read(Read { input, durability, changed_at }),
            final(self)@.wf(),
    {
        if !self.untracked && !contains_key(&self.dependencies, input) {
            self.dependencies.push(input);
        }
        self.durability = self.durability.min(durability);
        self.changed_at = self.changed_at.max(changed_at);
    }

    /// Records that the query read, in revision `now`, something the engine
    /// cannot track.
    pub fn add_untracked_read(&mut self, now: Revision)
        ensures
            final(self)@ == old(self)@.add_untracked_read(now),
    {
        self.untracked = true;
        self.durability = Durability::LOW;
        self.changed_at = now;
    }

    /// Records that the query read outside state of the given durability.
    pub fn add_synthetic_read(&mut self, durability: Durability)
        ensures
            final(self)@ == old(self)@.add_synthetic_read(durability),
    {
        self.durability = self.durability.min(durability);
    }

    /// Ends the record: the query came to `value`.
    pub fn complete_as_computed<V>(self, value: V) -> (result: ComputedQueryResult<V>)
        ensures
            result.completes(self@, value),
    {
        let dependencies = if self.untracked {
            None
        } else {
            Some(self.dependencies)
        };
        ComputedQueryResult {
            value,
            durability: self.durability,
            changed_at: self.changed_at,
            dependencies,
            cycle: self.cycle,
        }
    }
}

/// A query is never more durable than any value it read, nor than it was
/// before the reads.
pub proof fn lemma_durability_at_most_every_read(frame: FrameView, reads: Seq<Read>, i: int)
    requires
        0 <= i < reads.len(),
    ensures
        frame.add_reads(reads).durability.level() <= reads[i].durability.level(),
        frame.add_reads(reads).durability.level() <= frame.durability.level(),
    decreases reads.len(),
{
    let before = reads.drop_last();
    if i < before.len() {
        lemma_durability_at_most_every_read(frame, before, i);
    } else {
        lemma_durability_at_most_start(frame, before);
    }
}

/// Reads never make a query more durable than it was.
pub proof fn lemma_durability_at_most_start(frame: FrameView, reads: Seq<Read>)
    ensures
        frame.add_reads(reads).durability.level() <= frame.durability.level(),
    decreases reads.len(),
{
    if reads.len() > 0 {
        lemma_durability_at_most_start(frame, reads.drop_last());
    }
}

/// A query changed no earlier than any value it read, and no earlier than
/// the revision it began in; if all it read changed no later than `now`, and
/// it began no later than `now`, it changed no later than `now`.
pub proof fn lemma_changed_at_bounds(frame: FrameView, reads: Seq<Read>, now: Revision)
    ensures
        frame.changed_at@ <= frame.add_reads(reads).changed_at@,
        forall|i: int| 0 <= i < reads.len() ==> (#[trigger] reads[i]).changed_at@ <= frame.add_reads(reads).changed_at@,
        frame.changed_at@ <= now@ && (forall|i: int| 0 <= i < reads.len() ==> (#[trigger] reads[i]).changed_at@ <= now@)
            ==> frame.add_reads(reads).changed_at@ <= now@,
    decreases reads.len(),
{
    if reads.len() > 0 {
        let before = reads.drop_last();
        lemma_changed_at_bounds(frame, before, now);
        assert forall|i: int| 0 <= i < reads.len() implies (#[trigger] reads[i]).changed_at@ <= frame.add_reads(reads).changed_at@ by {
            if i < before.len() {
                assert(before[i] == reads[i]);
            }
        }
        if frame.changed_at@ <= now@ && (forall|i: int| 0 <= i < reads.len() ==> (#[trigger] reads[i]).changed_at@ <= now@) {
            assert forall|i: int| 0 <= i < before.len() implies (#[trigger] before[i]).changed_at@ <= now@ by {
                assert(before[i] == reads[i]);
            }
        }
    }
}

/// The slots a query has recorded stay free of repetitions, and are recorded
/// in the order of their first read.
pub proof fn lemma_reads_keep_order(frame: FrameView, reads: Seq<Read>)
    requires
        frame.wf(),
    ensures
        frame.add_reads(reads).wf(),
        frame.dependencies.is_prefix_of(frame.add_reads(reads).dependencies),
        !frame.untracked ==> forall|i: int| 0 <= i < reads.len() ==> frame.add_reads(reads).dependencies.contains((#[trigger] reads[i]).input),
    decreases reads.len(),
{
    if reads.len() > 0 {
        let before = reads.drop_last();
        lemma_reads_keep_order(frame, before);
        lemma_untracked_is_kept(frame, before);
        let mid = frame.add_reads(before);
        let end = frame.add_reads(reads);
        if !frame.untracked {
            assert forall|i: int| 0 <= i < reads.len() implies end.dependencies.contains((#[trigger] reads[i]).input) by {
                if i < before.len() {
                    assert(before[i] == reads[i]);
                    let j = choose|j: int| 0 <= j < mid.dependencies.len() && mid.dependencies[j] == reads[i].input;
                    assert(end.dependencies[j] == reads[i].input);
                } else {
                    if mid.dependencies.contains(reads[i].input) {
                    } else {
                        assert(end.dependencies[mid.dependencies.len() as int] == reads[i].input);
                    }
                }
            }
        }
    }
}

/// Tracked reads do not change whether a query is tracked.
pub proof fn lemma_untracked_is_kept(frame: FrameView, reads: Seq<Read>)
    ensures
        frame.add_reads(reads).untracked == frame.untracked,
        frame.add_reads(reads).key == frame.key,
    decreases reads.len(),
{
    if reads.len() > 0 {
        lemma_untracked_is_kept(frame, reads.drop_last());
    }
}

} // verus!
