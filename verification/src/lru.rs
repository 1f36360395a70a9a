//! Which slots were read least recently, for queries that keep only so many
//! values.

use vstd::prelude::*;

verus! {

/// The keys of the slots whose values are kept, from the one read least
/// recently to the one read most recently.
#[derive(Debug)]
pub struct Lru {
    /// How many values are kept at most; 0 for any number.
    pub capacity: usize,
    /// The keys, least recently read first.
    pub order: Vec<u32>,
}

/// An [`Lru`] as a mathematical value.
pub struct LruView {
    pub capacity: nat,
    pub order: Seq<u32>,
}

impl View for Lru {
    type V = LruView;

    open spec fn view(&self) -> LruView {
        LruView { capacity: self.capacity as nat, order: self.order@ }
    }
}

/// `order` without `key`.
pub open spec fn without(order: Seq<u32>, key: u32) -> Seq<u32> {
    order.filter(|k: u32| k != key)
}

impl LruView {
    /// No key is listed twice, and no more keys than the capacity allows.
    pub open spec fn wf(self) -> bool {
        &&& self.order.no_duplicates()
        &&& self.capacity > 0 ==> self.order.len() <= self.capacity
        &&& self.capacity == 0 ==> self.order.len() == 0
    }

    /// The list once `key` was moved to the end as the most recently read,
    /// before anything is dropped.
    pub open spec fn touched(self, key: u32) -> Seq<u32> {
        without(self.order, key).push(key)
    }

    /// The key whose value is to go after a read of `key`: the least recently
    /// read one, if the list has outgrown the capacity.
    pub open spec fn evicted_by(self, key: u32) -> Option<u32> {
        if self.capacity > 0 && self.touched(key).len() > self.capacity {
            Some(self.touched(key)[0])
        } else {
            None
        }
    }

    /// The list after a read of `key`.  Without a capacity nothing is
    /// listed.
    pub open spec fn record_use(self, key: u32) -> LruView {
        if self.capacity == 0 {
            self
        } else if self.touched(key).len() > self.capacity {
            LruView { order: self.touched(key).drop_first(), ..self }
        } else {
            LruView { order: self.touched(key), ..self }
        }
    }
}

/// A list without a key lists no key twice if the list did not, holds what
/// the list held but the key, and is shorter by one if the list held the
/// key.
pub proof fn lemma_without(order: Seq<u32>, key: u32)
    requires
        order.no_duplicates(),
    ensures
        without(order, key).no_duplicates(),
        !without(order, key).contains(key),
        forall|k: u32| k != key ==> (#[trigger] without(order, key).contains(k) <==> order.contains(k)),
        without(order, key).len() == if order.contains(key) {
            order.len() - 1
        } else {
            order.len() as int
        },
    decreases order.len(),
{
    reveal(Seq::filter);
    if order.len() > 0 {
        let rest = order.drop_last();
        let last = order.last();
        assert(rest.no_duplicates()) by {
            assert forall|i: int, j: int| 0 <= i < rest.len() && 0 <= j < rest.len() && i != j implies rest[i] != rest[j] by {
                assert(rest[i] == order[i] && rest[j] == order[j]);
            }
        }
        lemma_without(rest, key);
        assert(!rest.contains(last)) by {
            if rest.contains(last) {
                let i = choose|i: int| 0 <= i < rest.len() && rest[i] == last;
                assert(order[i] == order[order.len() - 1]);
            }
        }
        assert forall|k: u32| order.contains(k) <==> (rest.contains(k) || k == last) by {
            if order.contains(k) {
                let i = choose|i: int| 0 <= i < order.len() && order[i] == k;
                if i < rest.len() {
                    assert(rest[i] == k);
                }
            }
            if rest.contains(k) {
                let i = choose|i: int| 0 <= i < rest.len() && rest[i] == k;
                assert(order[i] == k);
            }
            if k == last {
                assert(order[order.len() - 1] == k);
            }
        }
        let w = without(rest, key);
        if last != key {
            assert(without(order, key) == w.push(last));
            assert(!w.contains(last));
            assert forall|i: int, j: int| 0 <= i < w.push(last).len() && 0 <= j < w.push(last).len() && i != j implies w.push(
                last,
            )[i] != w.push(last)[j] by {
                if i < w.len() && j < w.len() {
                } else if i < w.len() {
                    assert(w.contains(w[i]));
                } else {
                    assert(w.contains(w[j]));
                }
            }
            assert forall|k: u32| k != key implies (#[trigger] w.push(last).contains(k) <==> order.contains(k)) by {
                if w.push(last).contains(k) {
                    let i = choose|i: int| 0 <= i < w.push(last).len() && w.push(last)[i] == k;
                    if i < w.len() {
                        assert(w.contains(k));
                    }
                }
                if order.contains(k) {
                    if k == last {
                        assert(w.push(last)[w.len() as int] == k);
                    } else {
                        let i = choose|i: int| 0 <= i < w.len() && w[i] == k;
                        assert(w.push(last)[i] == k);
                    }
                }
            }
            assert(!w.push(last).contains(key)) by {
                if w.push(last).contains(key) {
                    let i = choose|i: int| 0 <= i < w.push(last).len() && w.push(last)[i] == key;
                    if i < w.len() {
                        assert(w.contains(key));
                    }
                }
            }
        } else {
            assert(without(order, key) == w);
        }
    }
}

impl Lru {
    /// See [`LruView::wf`].
    pub open spec fn wf(self) -> bool {
        self@.wf()
    }

    /// A list for a query that keeps any number of values.
    pub fn new() -> (lru: Lru)
        ensures
            lru@ == (LruView { capacity: 0, order: Seq::empty() }),
            lru.wf(),
    {
        Lru { capacity: 0, order: Vec::new() }
    }

    /// Sets how many values are kept; 0 for any number.  The list begins
    /// anew; the keys that were listed are handed back.
    pub fn set_lru_capacity(&mut self, capacity: usize) -> (dropped: Vec<u32>)
        ensures
            final(self)@ == (LruView { capacity: capacity as nat, order: Seq::empty() }),
            final(self).wf(),
            dropped@ == old(self)@.order,
    {
        let mut dropped: Vec<u32> = Vec::new();
        std::mem::swap(&mut self.order, &mut dropped);
        self.capacity = capacity;
        dropped
    }

    /// Records that the value of the slot `key` was read: the key becomes
    /// the most recently read one.  If more keys are listed than values are
    /// to be kept, the least recently read key leaves the list and is
    /// returned: its value is to go.
    pub fn record_use(&mut self, key: u32) -> (evicted: Option<u32>)
        requires
            old(self).wf(),
        ensures
            final(self)@ == old(self)@.record_use(key),
            evicted == old(self)@.evicted_by(key),
            final(self).wf(),
            evicted matches Some(k) ==> k != key && old(self)@.order.contains(k) && !final(self)@.order.contains(k),
            forall|k: u32| #[trigger] final(self)@.order.contains(k) ==> k == key || old(self)@.order.contains(k),
    {
        if self.capacity == 0 {
            return None;
        }
        proof {
            lemma_without(self.order@, key);
        }
        let mut kept: Vec<u32> = Vec::new();
        let mut i: usize = 0;
        proof {
            reveal(Seq::filter);
            assert(self.order@.take(0) =~= Seq::<u32>::empty());
        }
        while i < self.order.len()
            invariant
                i <= self.order@.len(),
                kept@ == without(self.order@.take(i as int), key),
            decreases self.order@.len() - i,
        {
            proof {
                reveal(Seq::filter);
                assert(self.order@.take(i + 1).drop_last() =~= self.order@.take(i as int));
                assert(self.order@.take(i + 1).last() == self.order@[i as int]);
            }
            if self.order[i] != key {
                kept.push(self.order[i]);
            }
            i += 1;
        }
        proof {
            assert(self.order@.take(self.order@.len() as int) =~= self.order@);
        }
        kept.push(key);
        let ghost touched = kept@;
        proof {
            let w = without(old(self).order@, key);
            assert(touched == old(self)@.touched(key));
            assert(touched.no_duplicates()) by {
                assert forall|a: int, b: int| 0 <= a < touched.len() && 0 <= b < touched.len() && a != b implies touched[a]
                    != touched[b] by {
                    if a < w.len() && b < w.len() {
                    } else if a < w.len() {
                        assert(w.contains(w[a]));
                    } else {
                        assert(w.contains(w[b]));
                    }
                }
            }
        }
        let evicted = if kept.len() > self.capacity {
            let first = kept.remove(0);
            proof {
                let w = without(old(self).order@, key);
                assert(kept@ =~= touched.drop_first());
                assert(w.len() > 0);
                assert(first == w[0]);
                assert(w.contains(first));
                assert(kept@.no_duplicates()) by {
                    assert forall|a: int, b: int| 0 <= a < kept@.len() && 0 <= b < kept@.len() && a != b implies kept@[a]
                        != kept@[b] by {
                        assert(kept@[a] == touched[a + 1] && kept@[b] == touched[b + 1]);
                    }
                }
                assert(!kept@.contains(first)) by {
                    if kept@.contains(first) {
                        let a = choose|a: int| 0 <= a < kept@.len() && kept@[a] == first;
                        assert(touched[a + 1] == touched[0]);
                    }
                }
            }
            Some(first)
        } else {
            None
        };
        proof {
            let w = without(old(self).order@, key);
            assert forall|k: u32| #[trigger] kept@.contains(k) implies k == key || old(self)@.order.contains(k) by {
                let a = choose|a: int| 0 <= a < kept@.len() && kept@[a] == k;
                let b = if kept@.len() < touched.len() {
                    a + 1
                } else {
                    a
                };
                assert(touched[b] == k);
                if b < w.len() {
                    assert(w.contains(k));
                }
            }
        }
        self.order = kept;
        evicted
    }

    /// Forgets the slot `key`, whose value is gone.
    pub fn forget(&mut self, key: u32)
        requires
            old(self).wf(),
        ensures
            final(self)@ == (LruView { order: without(old(self)@.order, key), ..old(self)@ }),
            final(self).wf(),
    {
        proof {
            lemma_without(self.order@, key);
        }
        let mut kept: Vec<u32> = Vec::new();
        let mut i: usize = 0;
        proof {
            reveal(Seq::filter);
            assert(self.order@.take(0) =~= Seq::<u32>::empty());
        }
        while i < self.order.len()
            invariant
                i <= self.order@.len(),
                kept@ == without(self.order@.take(i as int), key),
            decreases self.order@.len() - i,
        {
            proof {
                reveal(Seq::filter);
                assert(self.order@.take(i + 1).drop_last() =~= self.order@.take(i as int));
                assert(self.order@.take(i + 1).last() == self.order@[i as int]);
            }
            if self.order[i] != key {
                kept.push(self.order[i]);
            }
            i += 1;
        }
        proof {
            assert(self.order@.take(self.order@.len() as int) =~= self.order@);
        }
        self.order = kept;
    }
}

} // verus!
