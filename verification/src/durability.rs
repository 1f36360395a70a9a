//! Durability classes: how seldom a value is expected to change.

use vstd::prelude::*;

verus! {

/// How seldom a value changes.  A derived value is as durable as the least
/// durable of the values it was computed from.
#[allow(non_camel_case_types)]
#[derive(Clone, Copy, Debug, PartialEq, Eq, Structural, Hash)]
pub enum Durability {
    /// Changes often: the default for inputs.
    LOW,
    /// Changes now and then.
    MEDIUM,
    /// Changes rarely, for example the sources of a standard library.
    HIGH,
}

impl Durability {
    /// Position of the class in the order `LOW < MEDIUM < HIGH`.
    pub open spec fn level(self) -> nat {
        match self {
            Durability::LOW => 0,
            Durability::MEDIUM => 1,
            Durability::HIGH => 2,
        }
    }

    /// The lesser of two classes, as a specification.
    pub open spec fn spec_min(self, other: Durability) -> Durability {
        if self.level() <= other.level() {
            self
        } else {
            other
        }
    }

    /// The greater of two classes, as a specification.
    pub open spec fn spec_max(self, other: Durability) -> Durability {
        if self.level() >= other.level() {
            self
        } else {
            other
        }
    }

    /// The most durable class.
    pub fn max_durability() -> (d: Durability)
        ensures
            d == Durability::HIGH,
    {
        Durability::HIGH
    }

    /// Position of the class in the order `LOW < MEDIUM < HIGH`.
    pub fn index(self) -> (i: usize)
        ensures
            i == self.level(),
    {
        match self {
            Durability::LOW => 0,
            Durability::MEDIUM => 1,
            Durability::HIGH => 2,
        }
    }

    /// Whether `self` is at most as durable as `other`.
    pub fn le(self, other: Durability) -> (b: bool)
        ensures
            b == (self.level() <= other.level()),
    {
        self.index() <= other.index()
    }

    /// The lesser of two classes.
    pub fn min(self, other: Durability) -> (d: Durability)
        ensures
            d == self.spec_min(other),
    {
        if self.le(other) {
            self
        } else {
            other
        }
    }

    /// The greater of two classes.
    pub fn max(self, other: Durability) -> (d: Durability)
        ensures
            d == self.spec_max(other),
    {
        if other.le(self) {
            self
        } else {
            other
        }
    }
}

/// Two classes at the same level are the same class.
pub proof fn lemma_level_injective(a: Durability, b: Durability)
    ensures
        a.level() == b.level() <==> a == b,
{
}

} // verus!
