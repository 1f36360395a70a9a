//! Who waits for whom: a worker that finds a slot being computed by another
//! worker waits for that worker, unless waiting would close a circle.

use vstd::prelude::*;
use crate::key::{DatabaseKeyIndex, RuntimeId};

verus! {

/// What a waiting worker waits for: the slot, and the worker that owns it.
#[derive(Clone, Copy, Debug, PartialEq, Eq, Structural)]
pub struct Target {
    pub key: DatabaseKeyIndex,
    pub to: RuntimeId,
}

/// One worker waiting: `from` waits for `target`.
#[derive(Clone, Copy, Debug)]
pub struct Edge {
    pub from: RuntimeId,
    pub target: Target,
}

/// The workers that wait, each with what it waits for.
#[derive(Debug)]
pub struct WaitGraph {
    pub edges: Vec<Edge>,
}

/// The graph as a map from each waiting worker to what it waits for.
pub open spec fn edges_map(edges: Seq<Edge>) -> Map<RuntimeId, Target>
    decreases edges.len(),
{
    if edges.len() == 0 {
        Map::empty()
    } else {
        edges_map(edges.drop_last()).insert(edges.last().from, edges.last().target)
    }
}

/// No worker is listed twice.
pub open spec fn distinct_sources(edges: Seq<Edge>) -> bool {
    forall|i: int, j: int| 0 <= i < edges.len() && 0 <= j < edges.len() && i != j ==> edges[i].from != edges[j].from
}

/// The worker reached from `a` after `n` hops, each from a waiting worker to
/// the worker it waits for; `None` if the walk ends earlier.
pub open spec fn hop(g: Map<RuntimeId, Target>, a: RuntimeId, n: nat) -> Option<RuntimeId>
    decreases n,
{
    if n == 0 {
        Some(a)
    } else {
        match hop(g, a, (n - 1) as nat) {
            Some(x) => if g.contains_key(x) {
                Some(g[x].to)
            } else {
                None
            },
            None => None,
        }
    }
}

/// Whether `a` waits for `b`, directly or through other waiting workers.
pub open spec fn waits_for(g: Map<RuntimeId, Target>, a: RuntimeId, b: RuntimeId) -> bool {
    exists|n: nat| n >= 1 && #[trigger] hop(g, a, n) == Some(b)
}

/// Whether the walk from `a` comes, after exactly `n` hops and not before,
/// to `b` or to a worker that does not wait.
pub open spec fn stops_after(g: Map<RuntimeId, Target>, a: RuntimeId, b: RuntimeId, n: nat) -> bool {
    &&& hop(g, a, n) is Some
    &&& hop(g, a, n)->0 == b || !g.contains_key(hop(g, a, n)->0)
    &&& forall|j: nat| j < n ==> (#[trigger] hop(g, a, j)) is Some && hop(g, a, j)->0 != b && g.contains_key(hop(g, a, j)->0)
}

/// The slots that the first `n` workers on the walk from `a` wait for, in
/// the order of the walk.
pub open spec fn walk_keys(g: Map<RuntimeId, Target>, a: RuntimeId, n: nat) -> Seq<DatabaseKeyIndex> {
    Seq::new(n, |i: int| g[hop(g, a, i as nat)->0].key)
}

/// `rank` falls along every edge of the graph.
pub open spec fn ranked(g: Map<RuntimeId, Target>, rank: spec_fn(RuntimeId) -> nat) -> bool {
    forall|w: RuntimeId| #[trigger] g.contains_key(w) ==> rank(w) > rank(g[w].to)
}

/// No circle of waiting workers: some rank falls along every edge.
pub open spec fn acyclic(g: Map<RuntimeId, Target>) -> bool {
    exists|rank: spec_fn(RuntimeId) -> nat| ranked(g, rank)
}

/// The graph without the workers that wait for `target`.
pub open spec fn without_waiters_of(g: Map<RuntimeId, Target>, target: Target) -> Map<RuntimeId, Target> {
    g.remove_keys(Set::new(|w: RuntimeId| g.contains_key(w) && g[w] == target))
}

impl View for WaitGraph {
    type V = Map<RuntimeId, Target>;

    open spec fn view(&self) -> Map<RuntimeId, Target> {
        edges_map(self.edges@)
    }
}

/// A worker is in the map exactly if it is listed, and a worker listed once
/// is mapped to what its entry says.
pub proof fn lemma_edges_map(edges: Seq<Edge>)
    ensures
        forall|w: RuntimeId| #[trigger] edges_map(edges).contains_key(w) <==> exists|i: int| 0 <= i < edges.len() && (#[trigger] edges[i]).from == w,
        distinct_sources(edges) ==> forall|i: int| 0 <= i < edges.len() ==> edges_map(edges)[(#[trigger] edges[i]).from] == edges[i].target,
    decreases edges.len(),
{
    if edges.len() > 0 {
        let rest = edges.drop_last();
        lemma_edges_map(rest);
        assert forall|w: RuntimeId| #[trigger] edges_map(edges).contains_key(w) <==> exists|i: int| 0 <= i < edges.len() && (#[trigger] edges[i]).from == w by {
            if edges_map(edges).contains_key(w) {
                if w == edges.last().from {
                    assert(edges[edges.len() - 1].from == w);
                } else {
                    assert(edges_map(rest).contains_key(w));
                    let i = choose|i: int| 0 <= i < rest.len() && (#[trigger] rest[i]).from == w;
                    assert(edges[i].from == w);
                }
            }
            if exists|i: int| 0 <= i < edges.len() && (#[trigger] edges[i]).from == w {
                let i = choose|i: int| 0 <= i < edges.len() && (#[trigger] edges[i]).from == w;
                if i < rest.len() {
                    assert(rest[i].from == w);
                    assert(edges_map(rest).contains_key(w));
                } else {
                    assert(edges.last().from == w);
                }
                assert(edges_map(edges).contains_key(w));
            }
        }
        if distinct_sources(edges) {
            assert(distinct_sources(rest)) by {
                assert forall|i: int, j: int| 0 <= i < rest.len() && 0 <= j < rest.len() && i != j implies rest[i].from != rest[j].from by {
                    assert(rest[i] == edges[i] && rest[j] == edges[j]);
                }
            }
            assert forall|i: int| 0 <= i < edges.len() implies edges_map(edges)[(#[trigger] edges[i]).from] == edges[i].target by {
                if i < rest.len() {
                    assert(rest[i] == edges[i]);
                    assert(edges[i].from != edges[edges.len() - 1].from);
                }
            }
        }
    }
}

/// A walk that has ended stays ended.
pub proof fn lemma_hop_ends(g: Map<RuntimeId, Target>, a: RuntimeId, k: nat, n: nat)
    requires
        k <= n,
        hop(g, a, k) is None,
    ensures
        hop(g, a, n) is None,
    decreases n,
{
    if k < n {
        lemma_hop_ends(g, a, k, (n - 1) as nat);
    }
}

/// A walk from a waiting worker is a hop followed by the walk from the
/// worker it waits for.
pub proof fn lemma_hop_first(g: Map<RuntimeId, Target>, a: RuntimeId, n: nat)
    requires
        g.contains_key(a),
    ensures
        hop(g, a, n + 1) == hop(g, g[a].to, n),
    decreases n,
{
    if n > 0 {
        lemma_hop_first(g, a, (n - 1) as nat);
    } else {
        assert(hop(g, a, 0) == Some(a));
    }
}

/// Along a walk the rank falls hop by hop.
pub proof fn lemma_hop_rank(g: Map<RuntimeId, Target>, rank: spec_fn(RuntimeId) -> nat, a: RuntimeId, n: nat)
    requires
        ranked(g, rank),
        hop(g, a, n) is Some,
    ensures
        rank(hop(g, a, n)->0) + n <= rank(a),
    decreases n,
{
    if n > 0 {
        lemma_hop_rank(g, rank, a, (n - 1) as nat);
    }
}

/// Where nobody waits in a circle, no worker waits for itself.
pub proof fn lemma_acyclic_no_self_wait(g: Map<RuntimeId, Target>, a: RuntimeId)
    requires
        acyclic(g),
    ensures
        !waits_for(g, a, a),
{
    let rank = choose|rank: spec_fn(RuntimeId) -> nat| ranked(g, rank);
    if waits_for(g, a, a) {
        let n = choose|n: nat| n >= 1 && #[trigger] hop(g, a, n) == Some(a);
        lemma_hop_rank(g, rank, a, n);
    }
}

/// A graph stays free of circles when a worker that did not wait begins to
/// wait for a worker that does not wait for it.
pub proof fn lemma_block_keeps_acyclic(g: Map<RuntimeId, Target>, from: RuntimeId, target: Target)
    requires
        acyclic(g),
        !g.contains_key(from),
        from != target.to,
        !waits_for(g, target.to, from),
    ensures
        acyclic(g.insert(from, target)),
{
    let rank = choose|rank: spec_fn(RuntimeId) -> nat| ranked(g, rank);
    let shift = rank(target.to) + 1;
    let lifted = |x: RuntimeId| -> nat {
        if x == from || waits_for(g, x, from) {
            rank(x) + shift
        } else {
            rank(x)
        }
    };
    let g2 = g.insert(from, target);
    assert forall|w: RuntimeId| #[trigger] g2.contains_key(w) implies lifted(w) > lifted(g2[w].to) by {
        if w == from {
        } else {
            let b = g[w].to;
            if b == from {
                assert(hop(g, w, 0) == Some(w));
                assert(hop(g, w, 1) == Some(b));
                assert(waits_for(g, w, from));
            } else if waits_for(g, b, from) {
                let n = choose|n: nat| n >= 1 && #[trigger] hop(g, b, n) == Some(from);
                lemma_hop_first(g, w, n);
                assert(hop(g, w, n + 1) == Some(from));
                assert(waits_for(g, w, from));
            }
        }
    }
    assert(ranked(g2, lifted));
}

/// A graph stays free of circles when workers stop waiting.
pub proof fn lemma_unblock_keeps_acyclic(g: Map<RuntimeId, Target>, target: Target)
    requires
        acyclic(g),
    ensures
        acyclic(without_waiters_of(g, target)),
{
    let rank = choose|rank: spec_fn(RuntimeId) -> nat| ranked(g, rank);
    assert(ranked(without_waiters_of(g, target), rank));
}

impl WaitGraph {
    /// No worker is listed twice, and nobody waits in a circle.
    pub open spec fn wf(self) -> bool {
        &&& distinct_sources(self.edges@)
        &&& acyclic(self@)
    }

    /// A graph in which nobody waits.
    pub fn new() -> (graph: WaitGraph)
        ensures
            graph@ == Map::<RuntimeId, Target>::empty(),
            graph.wf(),
    {
        let graph = WaitGraph { edges: Vec::new() };
        proof {
            let rank = |w: RuntimeId| -> nat { 0nat };
            assert(ranked(graph@, rank));
        }
        graph
    }

    /// Where `worker` is listed.
    fn find(&self, worker: RuntimeId) -> (place: Option<usize>)
        ensures
            match place {
                Some(i) => i < self.edges@.len() && self.edges@[i as int].from == worker,
                None => forall|i: int| 0 <= i < self.edges@.len() ==> self.edges@[i].from != worker,
            },
    {
        let mut i: usize = 0;
        while i < self.edges.len()
            invariant
                i <= self.edges@.len(),
                forall|j: int| 0 <= j < i ==> self.edges@[j].from != worker,
            decreases self.edges@.len() - i,
        {
            if self.edges[i].from == worker {
                return Some(i);
            }
            i += 1;
        }
        None
    }

    /// What `worker` waits for, if it waits.
    pub fn blocked_on(&self, worker: RuntimeId) -> (target: Option<Target>)
        requires
            self.wf(),
        ensures
            target == if self@.contains_key(worker) {
                Some(self@[worker])
            } else {
                None
            },
    {
        proof {
            lemma_edges_map(self.edges@);
        }
        match self.find(worker) {
            Some(i) => Some(self.edges[i].target),
            None => None,
        }
    }

    /// The worker `from`, which is running, wants to wait for the slot `key`
    /// that the worker `to` is computing.  Waiting is refused, and nothing
    /// changes, if `to` is `from` itself or waits for `from`; otherwise
    /// `from` now waits for `to`.
    pub fn try_block_on(&mut self, from: RuntimeId, key: DatabaseKeyIndex, to: RuntimeId) -> (blocked: bool)
        requires
            old(self).wf(),
            !old(self)@.contains_key(from),
        ensures
            blocked == (from != to && !waits_for(old(self)@, to, from)),
            blocked ==> final(self)@ == old(self)@.insert(from, Target { key, to }),
            !blocked ==> final(self)@ == old(self)@,
            final(self).wf(),
    {
        if from == to {
            return false;
        }
        let ghost g = self@;
        let ghost rank = choose|rank: spec_fn(RuntimeId) -> nat| ranked(g, rank);
        let ghost mut k: nat = 0;
        let mut p = to;
        proof {
            lemma_edges_map(self.edges@);
        }
        loop
            invariant
                self == old(self),
                g == self@,
                self.wf(),
                ranked(g, rank),
                from != to,
                hop(g, to, k) == Some(p),
                p != from,
                forall|j: nat| 1 <= j <= k ==> #[trigger] hop(g, to, j) != Some(from),
                forall|w: RuntimeId| #[trigger] g.contains_key(w) <==> exists|i: int| 0 <= i < self.edges@.len() && (#[trigger] self.edges@[i]).from == w,
                forall|i: int| 0 <= i < self.edges@.len() ==> g[(#[trigger] self.edges@[i]).from] == self.edges@[i].target,
                !g.contains_key(from),
            decreases rank(p),
        {
            match self.find(p) {
                None => {
                    proof {
                        assert(!g.contains_key(p));
                        assert(hop(g, to, k + 1) is None);
                        assert forall|n: nat| n >= 1 implies #[trigger] hop(g, to, n) != Some(from) by {
                            if n > k {
                                lemma_hop_ends(g, to, k + 1, n);
                            }
                        }
                        assert(!waits_for(g, to, from));
                        lemma_block_keeps_acyclic(g, from, Target { key, to });
                    }
                    self.edges.push(Edge { from, target: Target { key, to } });
                    proof {
                        assert(self.edges@.drop_last() =~= old(self).edges@);
                        assert(distinct_sources(self.edges@)) by {
                            assert forall|i: int, j: int| 0 <= i < self.edges@.len() && 0 <= j < self.edges@.len() && i != j implies self.edges@[i].from != self.edges@[j].from by {
                                if i < old(self).edges@.len() {
                                    assert(old(self).edges@[i] == self.edges@[i]);
                                }
                                if j < old(self).edges@.len() {
                                    assert(old(self).edges@[j] == self.edges@[j]);
                                }
                            }
                        }
                    }
                    return true;
                },
                Some(i) => {
                    let q = self.edges[i].target.to;
                    proof {
                        assert(g.contains_key(p));
                        assert(g[p].to == q);
                        assert(hop(g, to, k + 1) == Some(q));
                    }
                    if q == from {
                        assert(waits_for(g, to, from));
                        return false;
                    }
                    proof {
                        k = k + 1;
                    }
                    p = q;
                },
            }
        }
    }

    /// The slots along the chain of waiting workers that begins with `to`
    /// and ends before `from`, or with the first worker that does not wait:
    /// for each worker on the chain, in order, the slot it waits for.  Where
    /// `to` waits for `from`, these are the slots that close the circle from
    /// `to` back to `from`.
    pub fn cycle_path(&self, from: RuntimeId, to: RuntimeId) -> (path: Vec<DatabaseKeyIndex>)
        requires
            self.wf(),
        ensures
            exists|n: nat| stops_after(self@, to, from, n) && path@ == walk_keys(self@, to, n),
    {
        let ghost g = self@;
        let ghost rank = choose|rank: spec_fn(RuntimeId) -> nat| ranked(g, rank);
        let ghost mut k: nat = 0;
        let mut p = to;
        let mut path: Vec<DatabaseKeyIndex> = Vec::new();
        proof {
            lemma_edges_map(self.edges@);
            assert(path@ =~= walk_keys(g, to, 0));
        }
        loop
            invariant
                g == self@,
                self.wf(),
                ranked(g, rank),
                hop(g, to, k) == Some(p),
                path@ == walk_keys(g, to, k),
                forall|j: nat| j < k ==> (#[trigger] hop(g, to, j)) is Some && hop(g, to, j)->0 != from && g.contains_key(
                    hop(g, to, j)->0,
                ),
                forall|w: RuntimeId| #[trigger] g.contains_key(w) <==> exists|i: int| 0 <= i < self.edges@.len() && (#[trigger] self.edges@[i]).from == w,
                forall|i: int| 0 <= i < self.edges@.len() ==> g[(#[trigger] self.edges@[i]).from] == self.edges@[i].target,
            decreases rank(p),
        {
            if p == from {
                assert(stops_after(g, to, from, k));
                return path;
            }
            match self.find(p) {
                None => {
                    assert(!g.contains_key(p));
                    assert(stops_after(g, to, from, k));
                    return path;
                },
                Some(i) => {
                    let target = self.edges[i].target;
                    proof {
                        assert(g.contains_key(p));
                        assert(g[p] == target);
                        assert(hop(g, to, k + 1) == Some(target.to));
                    }
                    path.push(target.key);
                    proof {
                        assert(path@ =~= walk_keys(g, to, k + 1));
                        k = k + 1;
                    }
                    p = target.to;
                },
            }
        }
    }

    /// The worker `owner` is done with the slot `key`: whoever waited for it
    /// waits no longer.
    pub fn unblock_queries_blocked_on(&mut self, key: DatabaseKeyIndex, owner: RuntimeId)
        requires
            old(self).wf(),
        ensures
            final(self)@ == without_waiters_of(old(self)@, Target { key, to: owner }),
            final(self).wf(),
    {
        let ghost target = Target { key, to: owner };
        let mut kept: Vec<Edge> = Vec::new();
        let mut i: usize = 0;
        proof {
            lemma_edges_map(self.edges@);
        }
        while i < self.edges.len()
            invariant
                i <= self.edges@.len(),
                self == old(self),
                self.wf(),
                target == (Target { key, to: owner }),
                edges_map(kept@) == without_waiters_of(edges_map(self.edges@.take(i as int)), target),
                forall|a: int| 0 <= a < kept@.len() ==> exists|b: int| 0 <= b < i && self.edges@[b] == #[trigger] kept@[a],
                distinct_sources(kept@),
            decreases self.edges@.len() - i,
        {
            let edge = self.edges[i];
            let ghost seen = self.edges@.take(i as int);
            let ghost next = self.edges@.take(i + 1);
            proof {
                assert(next.drop_last() =~= seen);
                assert(next.last() == edge);
                lemma_edges_map(seen);
                assert(!edges_map(seen).contains_key(edge.from)) by {
                    if edges_map(seen).contains_key(edge.from) {
                        let b = choose|b: int| 0 <= b < seen.len() && (#[trigger] seen[b]).from == edge.from;
                        assert(self.edges@[b] == seen[b]);
                    }
                }
            }
            if edge.target.key == key && edge.target.to == owner {
                proof {
                    assert(edge.target == target);
                    assert(without_waiters_of(edges_map(next), target) =~= without_waiters_of(edges_map(seen), target));
                }
            } else {
                let ghost before = kept@;
                kept.push(edge);
                proof {
                    assert(kept@.drop_last() =~= before);
                    assert(without_waiters_of(edges_map(next), target) =~= without_waiters_of(edges_map(seen), target).insert(edge.from, edge.target));
                    assert forall|a: int| 0 <= a < kept@.len() implies exists|b: int| 0 <= b < i + 1 && self.edges@[b] == #[trigger] kept@[a] by {
                        if a < before.len() {
                            let b = choose|b: int| 0 <= b < i && self.edges@[b] == before[a];
                            assert(self.edges@[b] == kept@[a]);
                        } else {
                            assert(self.edges@[i as int] == kept@[a]);
                        }
                    }
                    assert forall|a: int, c: int| 0 <= a < kept@.len() && 0 <= c < kept@.len() && a != c implies kept@[a].from != kept@[c].from by {
                        let b1 = choose|b: int| 0 <= b < i + 1 && self.edges@[b] == kept@[a];
                        let b2 = choose|b: int| 0 <= b < i + 1 && self.edges@[b] == kept@[c];
                        if a < before.len() && c < before.len() {
                            assert(before[a].from != before[c].from);
                        } else if a < before.len() {
                            let b = choose|b: int| 0 <= b < i && self.edges@[b] == before[a];
                            assert(self.edges@[b].from != self.edges@[i as int].from);
                        } else {
                            let b = choose|b: int| 0 <= b < i && self.edges@[b] == before[c];
                            assert(self.edges@[b].from != self.edges@[i as int].from);
                        }
                    }
                }
            }
            i += 1;
        }
        proof {
            assert(self.edges@.take(self.edges@.len() as int) =~= self.edges@);
            lemma_unblock_keeps_acyclic(self@, target);
        }
        self.edges = kept;
    }
}

} // verus!
