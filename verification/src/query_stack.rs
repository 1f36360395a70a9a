//! The stack of queries a worker is running: the query on top was called by
//! the one below it.

use vstd::prelude::*;
use crate::active_query::{ActiveQuery, ComputedQueryResult, FrameView, Read};
use crate::durability::Durability;
use crate::key::{contains_key, copy_keys, DatabaseKeyIndex};
use crate::revision::Revision;
use crate::stamped::{CycleDetected, CycleError};
use crate::wait_graph::{stops_after, walk_keys, WaitGraph};

verus! {

/// The queries a worker is running, outermost first.
#[derive(Debug)]
pub struct QueryStack {
    pub frames: Vec<ActiveQuery>,
}

impl View for QueryStack {
    type V = Seq<FrameView>;

    open spec fn view(&self) -> Seq<FrameView> {
        Seq::new(self.frames@.len(), |i: int| self.frames@[i]@)
    }
}

/// The slots of the queries `frames[start..]`, in their order.
pub open spec fn keys_from(frames: Seq<FrameView>, start: int) -> Seq<DatabaseKeyIndex> {
    Seq::new((frames.len() - start) as nat, |i: int| frames[start + i].key)
}

/// Whether `start` is the place of the innermost query on `key`.
pub open spec fn is_innermost(frames: Seq<FrameView>, key: DatabaseKeyIndex, start: int) -> bool {
    &&& 0 <= start < frames.len()
    &&& frames[start].key == key
    &&& forall|j: int| start < j < frames.len() ==> (#[trigger] frames[j]).key != key
}

/// Whether some query on the stack runs for `key`.
pub open spec fn is_active(frames: Seq<FrameView>, key: DatabaseKeyIndex) -> bool {
    exists|i: int| 0 <= i < frames.len() && (#[trigger] frames[i]).key == key
}

/// Whether every query from `start` inwards runs for a slot among
/// `participants`.
pub open spec fn all_participate(frames: Seq<FrameView>, participants: Seq<DatabaseKeyIndex>, start: int) -> bool {
    forall|j: int| start <= j < frames.len() ==> participants.contains((#[trigger] frames[j]).key)
}

/// The place of the innermost query on `key`, or -1 if no query on the stack
/// runs for `key`.
pub open spec fn innermost(frames: Seq<FrameView>, key: DatabaseKeyIndex) -> int
    decreases frames.len(),
{
    if frames.len() == 0 {
        -1
    } else if frames.last().key == key {
        frames.len() - 1
    } else {
        innermost(frames.drop_last(), key)
    }
}

/// The outermost place from which every query inwards runs for a slot among
/// `participants`; the depth of the stack if the query on top does not.
pub open spec fn participants_start(frames: Seq<FrameView>, participants: Seq<DatabaseKeyIndex>) -> int
    decreases frames.len(),
{
    if frames.len() == 0 {
        0
    } else if participants.contains(frames.last().key) {
        participants_start(frames.drop_last(), participants)
    } else {
        frames.len() as int
    }
}

/// The stack in which every query from `start` inwards has `cycle` as its
/// cycle; the queries further out are as they were.
pub open spec fn mark_from(frames: Seq<FrameView>, start: int, cycle: Seq<DatabaseKeyIndex>) -> Seq<FrameView> {
    Seq::new(
        frames.len(),
        |i: int|
            if i >= start {
                frames[i].with_cycle(cycle)
            } else {
                frames[i]
            },
    )
}

/// The stack in which every query that runs for a slot among `cycle` has
/// `cycle` as its cycle; the other queries are as they were.
pub open spec fn mark_members(frames: Seq<FrameView>, cycle: Seq<DatabaseKeyIndex>) -> Seq<FrameView> {
    Seq::new(
        frames.len(),
        |i: int|
            if cycle.contains(frames[i].key) {
                frames[i].with_cycle(cycle)
            } else {
                frames[i]
            },
    )
}

/// The stack with the top record replaced by `top`; an empty stack stays
/// empty.
pub open spec fn with_top(frames: Seq<FrameView>, top: FrameView) -> Seq<FrameView> {
    if frames.len() == 0 {
        frames
    } else {
        frames.update(frames.len() - 1, top)
    }
}

/// Every record on the stack is free of repetitions.
pub open spec fn frames_wf(frames: Seq<FrameView>) -> bool {
    forall|i: int| 0 <= i < frames.len() ==> (#[trigger] frames[i]).wf()
}

impl QueryStack {
    /// Every record on the stack is free of repetitions.
    pub open spec fn wf(self) -> bool {
        frames_wf(self@)
    }

    /// The stack of a worker that runs no query.
    pub fn new() -> (stack: QueryStack)
        ensures
            stack@ == Seq::<FrameView>::empty(),
            stack.wf(),
    {
        let stack = QueryStack { frames: Vec::new() };
        assert(stack@ =~= Seq::<FrameView>::empty());
        stack
    }

    /// How many queries the worker is running.
    pub fn depth(&self) -> (n: usize)
        ensures
            n == self@.len(),
    {
        self.frames.len()
    }

    /// The slot of the query on top, if the worker runs one.
    pub fn active_query(&self) -> (key: Option<DatabaseKeyIndex>)
        ensures
            key == if self@.len() == 0 {
                None
            } else {
                Some(self@.last().key)
            },
    {
        let n = self.frames.len();
        if n == 0 {
            None
        } else {
            Some(self.frames[n - 1].database_key_index)
        }
    }

    /// Whether the worker is running a query for `key`.
    pub fn is_running(&self, key: DatabaseKeyIndex) -> (running: bool)
        ensures
            running == is_active(self@, key),
    {
        let mut i: usize = 0;
        while i < self.frames.len()
            invariant
                i <= self.frames.len(),
                forall|j: int| 0 <= j < i ==> (#[trigger] self@[j]).key != key,
            decreases self.frames.len() - i,
        {
            if self.frames[i].database_key_index == key {
                assert(self@[i as int].key == key);
                return true;
            }
            i += 1;
        }
        false
    }

    /// The worker begins, in revision `now`, to run the query of `key`: a
    /// fresh record goes on top.
    pub fn push_query(&mut self, key: DatabaseKeyIndex, now: Revision)
        requires
            old(self).wf(),
        ensures
            final(self)@ == old(self)@.push(FrameView::fresh(key, now)),
            final(self).wf(),
    {
        let frame = ActiveQuery::new(key, now);
        self.frames.push(frame);
        assert(self@ =~= old(self)@.push(FrameView::fresh(key, now)));
    }

    /// The query on top came to `value`: its record leaves the stack and
    /// becomes the result.
    pub fn pop_query<V>(&mut self, value: V) -> (result: ComputedQueryResult<V>)
        requires
            old(self)@.len() > 0,
        ensures
            final(self)@ == old(self)@.drop_last(),
            result.completes(old(self)@.last(), value),
            old(self).wf() ==> final(self).wf(),
    {
        let frame = self.frames.pop().unwrap();
        assert(self@ =~= old(self)@.drop_last());
        assert(frame@ == old(self)@.last());
        frame.complete_as_computed(value)
    }

    /// The query on top read the slot `input`, whose value has the given
    /// stamps.  Outside any query nothing is recorded.
    pub fn report_query_read(&mut self, input: DatabaseKeyIndex, durability: Durability, changed_at: Revision)
        requires
            old(self).wf(),
        ensures
            final(self)@ == with_top(old(self)@, old(self)@.last().add_read(Read { input, durability, changed_at })),
            final(self).wf(),
    {
        let n = self.frames.len();
        if n > 0 {
            assert(old(self)@[n - 1].wf());
            self.frames[n - 1].add_read(input, durability, changed_at);
            assert(self@ =~= with_top(old(self)@, old(self)@.last().add_read(Read { input, durability, changed_at })));
        }
    }

    /// The query on top read, in revision `now`, something the engine cannot
    /// track.  Outside any query nothing is recorded.
    pub fn report_untracked_read(&mut self, now: Revision)
        ensures
            final(self)@ == with_top(old(self)@, old(self)@.last().add_untracked_read(now)),
            old(self).wf() ==> final(self).wf(),
    {
        let n = self.frames.len();
        if n > 0 {
            self.frames[n - 1].add_untracked_read(now);
            assert(self@ =~= with_top(old(self)@, old(self)@.last().add_untracked_read(now)));
            assert(old(self).wf() ==> self.wf()) by {
                if old(self).wf() {
                    assert forall|i: int| 0 <= i < self@.len() implies (#[trigger] self@[i]).wf() by {
                        assert(old(self)@[i].wf());
                    }
                }
            }
        }
    }

    /// The query on top read outside state of the given durability.  Outside
    /// any query nothing is recorded.
    pub fn report_synthetic_read(&mut self, durability: Durability)
        ensures
            final(self)@ == with_top(old(self)@, old(self)@.last().add_synthetic_read(durability)),
            old(self).wf() ==> final(self).wf(),
    {
        let n = self.frames.len();
        if n > 0 {
            self.frames[n - 1].add_synthetic_read(durability);
            assert(self@ =~= with_top(old(self)@, old(self)@.last().add_synthetic_read(durability)));
            assert(old(self).wf() ==> self.wf()) by {
                if old(self).wf() {
                    assert forall|i: int| 0 <= i < self@.len() implies (#[trigger] self@[i]).wf() by {
                        assert(old(self)@[i].wf());
                    }
                }
            }
        }
    }

    /// Marks the queries from `start` inwards as being on `cycle`.
    fn mark_cycle_from(&mut self, start: usize, cycle: &Vec<DatabaseKeyIndex>)
        requires
            start <= old(self)@.len(),
        ensures
            final(self)@ == mark_from(old(self)@, start as int, cycle@),
            old(self).wf() ==> final(self).wf(),
    {
        let n = self.frames.len();
        let mut i: usize = start;
        while i < n
            invariant
                start <= i <= n,
                n == self.frames@.len(),
                n == old(self)@.len(),
                forall|j: int| 0 <= j < n ==> (#[trigger] self@[j]) == if start <= j < i {
                    old(self)@[j].with_cycle(cycle@)
                } else {
                    old(self)@[j]
                },
            decreases n - i,
        {
            let ghost before = self@;
            self.frames[i].cycle = copy_keys(cycle);
            assert forall|j: int| 0 <= j < n implies (#[trigger] self@[j]) == if start <= j < i + 1 {
                old(self)@[j].with_cycle(cycle@)
            } else {
                old(self)@[j]
            } by {
                assert(before[j] == if start <= j < i {
                    old(self)@[j].with_cycle(cycle@)
                } else {
                    old(self)@[j]
                });
            }
            i += 1;
        }
        assert(self@ =~= mark_from(old(self)@, start as int, cycle@));
        assert(old(self).wf() ==> self.wf()) by {
            if old(self).wf() {
                assert forall|j: int| 0 <= j < self@.len() implies (#[trigger] self@[j]).wf() by {
                    assert(old(self)@[j].wf());
                }
            }
        }
    }

    /// The worker found that the query it is about to run for `key` is one it
    /// is running already.  The cycle is made of the queries from the
    /// innermost one on `key` up to the top; each of them is marked with it,
    /// and the error that reports it carries the stamp `changed_at` and the
    /// highest durability.
    pub fn report_local_cycle(&mut self, key: DatabaseKeyIndex, changed_at: Revision) -> (err: CycleError<DatabaseKeyIndex>)
        requires
            is_active(old(self)@, key),
        ensures
            err.cycle@ == keys_from(old(self)@, innermost(old(self)@, key)),
            err.cycle@.len() > 0,
            err.changed_at == changed_at,
            err.durability == Durability::HIGH,
            final(self)@ == mark_from(old(self)@, innermost(old(self)@, key), err.cycle@),
            old(self).wf() ==> final(self).wf(),
    {
        let n = self.frames.len();
        let mut start: usize = n;
        proof {
            lemma_innermost(self@, key);
            assert(self@.take(n as int) =~= self@);
        }
        while start > 0 && !(self.frames[start - 1].database_key_index == key)
            invariant
                start <= n,
                n == self.frames@.len(),
                innermost(self@, key) == innermost(self@.take(start as int), key),
                innermost(self@, key) >= 0,
            decreases start,
        {
            proof {
                let upto = self@.take(start as int);
                assert(upto.last() == self@[start - 1]);
                assert(upto.drop_last() =~= self@.take(start - 1));
            }
            start -= 1;
        }
        proof {
            let upto = self@.take(start as int);
            if start > 0 {
                assert(upto.last() == self@[start - 1]);
            }
        }
        let first: usize = start - 1;
        let mut cycle: Vec<DatabaseKeyIndex> = Vec::new();
        let mut i: usize = first;
        while i < n
            invariant
                first <= i <= n,
                n == self.frames@.len(),
                cycle@.len() == i - first,
                forall|j: int| 0 <= j < cycle@.len() ==> cycle@[j] == (#[trigger] self@[first + j]).key,
            decreases n - i,
        {
            cycle.push(self.frames[i].database_key_index);
            i += 1;
        }
        assert(cycle@ =~= keys_from(self@, first as int));
        self.mark_cycle_from(first, &cycle);
        CycleError { cycle, changed_at, durability: Durability::max_durability() }
    }

    /// The worker found that the slot `key` it wants to read is being
    /// computed by a worker that waits for it; `path` lists the slots along
    /// the chain of waiting workers.  The cycle is made of these slots and
    /// `key`; each query of this worker that runs for one of them is marked
    /// with it, and the error that reports it carries the stamp `changed_at`
    /// and the highest durability.
    pub fn report_remote_cycle(&mut self, key: DatabaseKeyIndex, path: Vec<DatabaseKeyIndex>, changed_at: Revision) -> (err:
        CycleError<DatabaseKeyIndex>)
        ensures
            err.cycle@ == path@.push(key),
            err.changed_at == changed_at,
            err.durability == Durability::HIGH,
            final(self)@ == mark_members(old(self)@, err.cycle@),
            old(self).wf() ==> final(self).wf(),
    {
        let mut cycle = path;
        cycle.push(key);
        let n = self.frames.len();
        let mut i: usize = 0;
        while i < n
            invariant
                i <= n,
                n == self.frames@.len(),
                n == old(self)@.len(),
                forall|j: int| 0 <= j < n ==> (#[trigger] self@[j]) == if j < i && cycle@.contains(old(self)@[j].key) {
                    old(self)@[j].with_cycle(cycle@)
                } else {
                    old(self)@[j]
                },
            decreases n - i,
        {
            let ghost before = self@;
            if contains_key(&cycle, self.frames[i].database_key_index) {
                self.frames[i].cycle = copy_keys(&cycle);
            }
            assert forall|j: int| 0 <= j < n implies (#[trigger] self@[j]) == if j < i + 1 && cycle@.contains(old(self)@[j].key) {
                old(self)@[j].with_cycle(cycle@)
            } else {
                old(self)@[j]
            } by {
                assert(before[j] == if j < i && cycle@.contains(old(self)@[j].key) {
                    old(self)@[j].with_cycle(cycle@)
                } else {
                    old(self)@[j]
                });
            }
            i += 1;
        }
        assert(self@ =~= mark_members(old(self)@, cycle@));
        assert(old(self).wf() ==> self.wf()) by {
            if old(self).wf() {
                assert forall|j: int| 0 <= j < self@.len() implies (#[trigger] self@[j]).wf() by {
                    assert(old(self)@[j].wf());
                }
            }
        }
        CycleError { cycle, changed_at, durability: Durability::max_durability() }
    }

    /// The worker found that reading the slot `key` would close the cycle
    /// `detected`.  If the worker itself is computing the slot, the cycle is
    /// made of its own queries from the innermost one on `key` inwards.  If
    /// another worker is, the cycle is made of the slots along the chain of
    /// waiting workers in `graph`, from the owner back to this worker, and of
    /// `key`.  The queries of this worker on the cycle are marked with it,
    /// and the error that reports it carries the stamp `changed_at` and the
    /// highest durability.
    pub fn report_unexpected_cycle(
        &mut self,
        key: DatabaseKeyIndex,
        detected: CycleDetected,
        graph: &WaitGraph,
        changed_at: Revision,
    ) -> (err: CycleError<DatabaseKeyIndex>)
        requires
            graph.wf(),
            detected.from == detected.to ==> is_active(old(self)@, key),
        ensures
            err.changed_at == changed_at,
            err.durability == Durability::HIGH,
            err.cycle@.len() > 0,
            if detected.from == detected.to {
                &&& err.cycle@ == keys_from(old(self)@, innermost(old(self)@, key))
                &&& final(self)@ == mark_from(old(self)@, innermost(old(self)@, key), err.cycle@)
            } else {
                &&& exists|n: nat|
                    stops_after(graph@, detected.to, detected.from, n) && err.cycle@ == walk_keys(graph@, detected.to, n).push(
                        key,
                    )
                &&& final(self)@ == mark_members(old(self)@, err.cycle@)
            },
            old(self).wf() ==> final(self).wf(),
    {
        if detected.from == detected.to {
            self.report_local_cycle(key, changed_at)
        } else {
            let path = graph.cycle_path(detected.from, detected.to);
            self.report_remote_cycle(key, path, changed_at)
        }
    }

    /// A slot this worker waited for turned out to be on the cycle
    /// `participants`.  The queries of this worker that run for a slot of the
    /// cycle, from the top down to the first that does not, are marked with
    /// it.
    pub fn mark_cycle_participants(&mut self, participants: &Vec<DatabaseKeyIndex>)
        ensures
            final(self)@ == mark_from(old(self)@, participants_start(old(self)@, participants@), participants@),
            old(self).wf() ==> final(self).wf(),
    {
        let n = self.frames.len();
        let mut start: usize = n;
        proof {
            assert(self@.take(n as int) =~= self@);
        }
        while start > 0 && contains_key(participants, self.frames[start - 1].database_key_index)
            invariant
                start <= n,
                n == self.frames@.len(),
                participants_start(self@, participants@) == participants_start(self@.take(start as int), participants@),
            decreases start,
        {
            proof {
                let upto = self@.take(start as int);
                assert(upto.last() == self@[start - 1]);
                assert(upto.drop_last() =~= self@.take(start - 1));
            }
            start -= 1;
        }
        proof {
            let upto = self@.take(start as int);
            if start > 0 {
                assert(upto.last() == self@[start - 1]);
            }
        }
        self.mark_cycle_from(start, participants);
    }
}

/// Where a query runs for `key`, `innermost` is the place of the innermost
/// one; where none does, it is -1.
pub proof fn lemma_innermost(frames: Seq<FrameView>, key: DatabaseKeyIndex)
    ensures
        is_active(frames, key) <==> innermost(frames, key) >= 0,
        is_active(frames, key) ==> is_innermost(frames, key, innermost(frames, key)),
        !is_active(frames, key) ==> innermost(frames, key) == -1,
    decreases frames.len(),
{
    if frames.len() > 0 {
        let rest = frames.drop_last();
        lemma_innermost(rest, key);
        if frames.last().key == key {
            assert(frames[frames.len() - 1].key == key);
        } else if is_active(rest, key) {
            let i = choose|i: int| 0 <= i < rest.len() && (#[trigger] rest[i]).key == key;
            assert(frames[i].key == key);
            let s = innermost(rest, key);
            assert(frames[s] == rest[s]);
            assert forall|j: int| s < j < frames.len() implies (#[trigger] frames[j]).key != key by {
                if j < rest.len() {
                    assert(rest[j] == frames[j]);
                }
            }
        } else {
            if is_active(frames, key) {
                let i = choose|i: int| 0 <= i < frames.len() && (#[trigger] frames[i]).key == key;
                assert(rest[i].key == key);
            }
        }
    }
}

/// From `participants_start` inwards every query runs for a participant, and
/// the query just outside, if there is one, does not.
pub proof fn lemma_participants_start(frames: Seq<FrameView>, participants: Seq<DatabaseKeyIndex>)
    ensures
        0 <= participants_start(frames, participants) <= frames.len(),
        all_participate(frames, participants, participants_start(frames, participants)),
        participants_start(frames, participants) > 0 ==> !participants.contains(
            frames[participants_start(frames, participants) - 1].key,
        ),
    decreases frames.len(),
{
    if frames.len() > 0 && participants.contains(frames.last().key) {
        let rest = frames.drop_last();
        lemma_participants_start(rest, participants);
        let s = participants_start(rest, participants);
        assert forall|j: int| s <= j < frames.len() implies participants.contains((#[trigger] frames[j]).key) by {
            if j < rest.len() {
                assert(rest[j] == frames[j]);
            }
        }
        if s > 0 {
            assert(rest[s - 1] == frames[s - 1]);
        }
    }
}

} // verus!
