//! Revisions, and the registry that counts them.

use vstd::prelude::*;
use crate::durability::Durability;

verus! {

/// A point in the engine's logical time.  Generation 0 is the sentinel
/// "before time"; the first revision of a database is generation 1.
#[derive(Clone, Copy, Debug, PartialEq, Eq, Structural, Hash)]
pub struct Revision {
    pub generation: u64,
}

impl View for Revision {
    type V = nat;

    open spec fn view(&self) -> nat {
        self.generation as nat
    }
}

impl Revision {
    /// The sentinel that precedes every revision.
    pub fn before_time() -> (r: Revision)
        ensures
            r@ == 0,
    {
        Revision { generation: 0 }
    }

    /// The first revision.
    pub fn start() -> (r: Revision)
        ensures
            r@ == 1,
    {
        Revision { generation: 1 }
    }

    /// The revision with the given generation.
    pub fn from(generation: u64) -> (r: Revision)
        ensures
            r@ == generation,
    {
        Revision { generation }
    }

    /// The revision that follows this one.
    pub fn next(self) -> (r: Revision)
        requires
            self@ < u64::MAX,
        ensures
            r@ == self@ + 1,
    {
        Revision { generation: self.generation + 1 }
    }

    /// Whether `self` is not later than `other`.
    pub fn le(self, other: Revision) -> (b: bool)
        ensures
            b == (self@ <= other@),
    {
        self.generation <= other.generation
    }

    /// Whether `self` is strictly later than `other`.
    pub fn gt(self, other: Revision) -> (b: bool)
        ensures
            b == (self@ > other@),
    {
        self.generation > other.generation
    }

    /// The later of two revisions, as a specification.
    pub open spec fn spec_max(self, other: Revision) -> Revision {
        if self@ >= other@ {
            self
        } else {
            other
        }
    }

    /// The later of two revisions.
    pub fn max(self, other: Revision) -> (r: Revision)
        ensures
            r == self.spec_max(other),
    {
        if self.generation >= other.generation {
            self
        } else {
            other
        }
    }
}

/// The revision counter together with, for each durability class, the last
/// revision in which a value of that class changed.
#[derive(Clone, Copy, Debug)]
pub struct Registry {
    /// The current revision; also the last change of class `LOW`.
    pub current: Revision,
    /// The last revision in which a value of class `MEDIUM` or above changed.
    pub medium: Revision,
    /// The last revision in which a value of class `HIGH` changed.
    pub high: Revision,
}

impl Registry {
    /// The last revision in which a value of class `d` changed.
    pub open spec fn spec_last_changed(self, d: Durability) -> Revision {
        match d {
            Durability::LOW => self.current,
            Durability::MEDIUM => self.medium,
            Durability::HIGH => self.high,
        }
    }

    /// No class changed after the current revision, a more durable class did
    /// not change after a less durable one, and time has begun.
    pub open spec fn wf(self) -> bool {
        &&& 1 <= self.high@
        &&& self.high@ <= self.medium@
        &&& self.medium@ <= self.current@
    }

    /// The registry as [`Registry::bump`] leaves it.
    pub open spec fn spec_bump(self, d: Durability) -> Registry {
        let next = Revision { generation: (self.current.generation + 1) as u64 };
        Registry {
            current: next,
            medium: if d.level() >= 1 { next } else { self.medium },
            high: if d.level() >= 2 { next } else { self.high },
        }
    }

    /// A registry at the first revision.
    pub fn new() -> (r: Registry)
        ensures
            r.wf(),
            r.current@ == 1,
            forall|d: Durability| r.spec_last_changed(d)@ == 1,
    {
        let start = Revision::start();
        Registry { current: start, medium: start, high: start }
    }

    /// The current revision.
    pub fn current(&self) -> (r: Revision)
        ensures
            r == self.current,
    {
        self.current
    }

    /// The last revision in which a value of class `d` changed.
    pub fn last_changed(&self, d: Durability) -> (r: Revision)
        ensures
            r == self.spec_last_changed(d),
    {
        match d {
            Durability::LOW => self.current,
            Durability::MEDIUM => self.medium,
            Durability::HIGH => self.high,
        }
    }

    /// Starts a new revision in which a value of class `d` changes: the
    /// counter advances by one, and every class up to `d` is recorded as
    /// changed in the new revision.
    pub fn bump(&mut self, d: Durability) -> (r: Revision)
        requires
            old(self).wf(),
            old(self).current@ < u64::MAX,
        ensures
            *final(self) == old(self).spec_bump(d),
            r == final(self).current,
            r@ == old(self).current@ + 1,
            final(self).wf(),
    {
        let next = self.current.next();
        self.current = next;
        if d.index() >= 1 {
            self.medium = next;
        }
        if d.index() >= 2 {
            self.high = next;
        }
        next
    }
}

/// After a bump at class `d`, exactly the classes up to `d` are recorded as
/// changed in the new revision; the others keep their record.
pub proof fn lemma_bump_marks_classes_up_to(reg: Registry, d: Durability, c: Durability)
    requires
        reg.wf(),
        reg.current@ < u64::MAX,
    ensures
        c.level() <= d.level() ==> reg.spec_bump(d).spec_last_changed(c) == reg.spec_bump(d).current,
        c.level() > d.level() ==> reg.spec_bump(d).spec_last_changed(c) == reg.spec_last_changed(c),
        reg.spec_bump(d).current@ == reg.current@ + 1,
        reg.spec_bump(d).wf(),
{
}

/// In a well-formed registry no class changed after the current revision,
/// and a more durable class changed no later than a less durable one.
pub proof fn lemma_last_changed_monotone(reg: Registry, c: Durability, d: Durability)
    requires
        reg.wf(),
    ensures
        reg.spec_last_changed(d)@ <= reg.current@,
        c.level() <= d.level() ==> reg.spec_last_changed(d)@ <= reg.spec_last_changed(c)@,
{
}

} // verus!
