//! What a sweep over the slots discards, and when.

use vstd::prelude::*;

verus! {

/// When a sweep discards what a slot remembers.
#[derive(Clone, Copy, Debug, PartialEq, Eq, Structural)]
pub enum DiscardIf {
    /// Never.
    Never,
    /// If the memo was not verified in the current revision.
    Outdated,
    /// In any case.
    Always,
}

/// What a sweep discards of what a slot remembers.
#[derive(Clone, Copy, Debug, PartialEq, Eq, Structural)]
pub enum DiscardWhat {
    /// Nothing.
    Nothing,
    /// The value; the inputs and the stamps stay, so that queries that
    /// depend on the slot can still be checked.
    Values,
    /// The whole memo.
    Everything,
}

/// When a sweep discards, and what.
#[derive(Clone, Copy, Debug, PartialEq, Eq, Structural)]
pub struct SweepStrategy {
    pub discard_if: DiscardIf,
    pub discard_what: DiscardWhat,
}

impl SweepStrategy {
    /// The strategy that discards nothing.
    pub fn new() -> (s: SweepStrategy)
        ensures
            s == (SweepStrategy { discard_if: DiscardIf::Never, discard_what: DiscardWhat::Nothing }),
    {
        SweepStrategy { discard_if: DiscardIf::Never, discard_what: DiscardWhat::Nothing }
    }

    /// The strategy that discards the values of outdated memos.
    pub fn discard_outdated() -> (s: SweepStrategy)
        ensures
            s == (SweepStrategy { discard_if: DiscardIf::Outdated, discard_what: DiscardWhat::Values }),
    {
        SweepStrategy { discard_if: DiscardIf::Outdated, discard_what: DiscardWhat::Values }
    }

    /// This strategy, discarding at least the values.
    pub fn discard_values(self) -> (s: SweepStrategy)
        ensures
            s.discard_if == self.discard_if,
            s.discard_what == if self.discard_what == DiscardWhat::Everything {
                DiscardWhat::Everything
            } else {
                DiscardWhat::Values
            },
    {
        let discard_what = match self.discard_what {
            DiscardWhat::Everything => DiscardWhat::Everything,
            _ => DiscardWhat::Values,
        };
        SweepStrategy { discard_if: self.discard_if, discard_what }
    }

    /// This strategy, discarding whole memos.
    pub fn discard_everything(self) -> (s: SweepStrategy)
        ensures
            s == (SweepStrategy { discard_if: self.discard_if, discard_what: DiscardWhat::Everything }),
    {
        SweepStrategy { discard_if: self.discard_if, discard_what: DiscardWhat::Everything }
    }

    /// This strategy, applied to outdated memos at least.
    pub fn sweep_outdated(self) -> (s: SweepStrategy)
        ensures
            s.discard_what == self.discard_what,
            s.discard_if == if self.discard_if == DiscardIf::Always {
                DiscardIf::Always
            } else {
                DiscardIf::Outdated
            },
    {
        let discard_if = match self.discard_if {
            DiscardIf::Always => DiscardIf::Always,
            _ => DiscardIf::Outdated,
        };
        SweepStrategy { discard_if, discard_what: self.discard_what }
    }

    /// This strategy, applied to memos of every revision.
    pub fn sweep_all_revisions(self) -> (s: SweepStrategy)
        ensures
            s == (SweepStrategy { discard_if: DiscardIf::Always, discard_what: self.discard_what }),
    {
        SweepStrategy { discard_if: DiscardIf::Always, discard_what: self.discard_what }
    }

    /// Whether a sweep with this strategy can discard anything at all.
    pub fn discards_something(self) -> (b: bool)
        ensures
            b == (self.discard_if != DiscardIf::Never && self.discard_what != DiscardWhat::Nothing),
    {
        !(self.discard_if == DiscardIf::Never) && !(self.discard_what == DiscardWhat::Nothing)
    }
}

} // verus!
