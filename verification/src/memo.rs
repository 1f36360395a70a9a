//! The memo: what a slot remembers of the last run of its query.

use vstd::prelude::*;
use crate::durability::Durability;
use crate::key::{copy_keys, DatabaseKeyIndex};
use crate::revision::{Registry, Revision};
use crate::stamped::StampedValue;

verus! {

/// The slots a memoized value was computed from.
#[derive(Debug)]
pub enum MemoInputs {
    /// The query read exactly these slots, each listed once, in the order of
    /// their first read; there is at least one.
    Recorded { inputs: Vec<DatabaseKeyIndex> },
    /// The query read no slot.
    NoInputs,
    /// The query read something the engine cannot track.
    Untracked,
}

/// [`MemoInputs`] as a mathematical value.
pub enum InputsView {
    Recorded { inputs: Seq<DatabaseKeyIndex> },
    NoInputs,
    Untracked,
}

impl View for MemoInputs {
    type V = InputsView;

    open spec fn view(&self) -> InputsView {
        match self {
            MemoInputs::Recorded { inputs } => InputsView::Recorded { inputs: inputs@ },
            MemoInputs::NoInputs => InputsView::NoInputs,
            MemoInputs::Untracked => InputsView::Untracked,
        }
    }
}

impl InputsView {
    /// What a memo records of a finished run whose tracked dependencies are
    /// `dependencies` (`None`: something untracked was read).
    pub open spec fn from_dependencies(dependencies: Option<Seq<DatabaseKeyIndex>>) -> InputsView {
        match dependencies {
            None => InputsView::Untracked,
            Some(inputs) => if inputs.len() == 0 {
                InputsView::NoInputs
            } else {
                InputsView::Recorded { inputs }
            },
        }
    }

    /// A tracked list is not empty and lists no slot twice.
    pub open spec fn wf(self) -> bool {
        match self {
            InputsView::Recorded { inputs } => inputs.len() > 0 && inputs.no_duplicates(),
            _ => true,
        }
    }
}

impl MemoInputs {
    /// What a memo records of a finished run with the given tracked
    /// dependencies.
    pub fn from_dependencies(dependencies: Option<Vec<DatabaseKeyIndex>>) -> (inputs: MemoInputs)
        ensures
            inputs@ == InputsView::from_dependencies(
                match dependencies {
                    Some(d) => Some(d@),
                    None => None,
                },
            ),
    {
        match dependencies {
            None => MemoInputs::Untracked,
            Some(inputs) => {
                if inputs.len() == 0 {
                    MemoInputs::NoInputs
                } else {
                    MemoInputs::Recorded { inputs }
                }
            },
        }
    }
}

/// What a slot remembers of the last run of its query.
#[derive(Debug)]
pub struct Memo<V> {
    /// The value, unless the slot's policy is not to keep it or it was
    /// discarded.
    pub value: Option<V>,
    /// The last revision in which the memo was found to be up to date.
    pub verified_at: Revision,
    /// The last revision in which the value was seen to change.
    pub changed_at: Revision,
    /// The least durability among the inputs.
    pub durability: Durability,
    /// The slots the value was computed from.
    pub inputs: MemoInputs,
}

/// A [`Memo`] as a mathematical value.
pub struct MemoView<V> {
    pub value: Option<V>,
    pub verified_at: Revision,
    pub changed_at: Revision,
    pub durability: Durability,
    pub inputs: InputsView,
}

impl<V> View for Memo<V> {
    type V = MemoView<V>;

    open spec fn view(&self) -> MemoView<V> {
        MemoView {
            value: self.value,
            verified_at: self.verified_at,
            changed_at: self.changed_at,
            durability: self.durability,
            inputs: self.inputs@,
        }
    }
}

/// How far the check of a memo's inputs has come.  The inputs are asked one
/// after the other, in the order the memo lists them, whether they changed
/// after `since`; the check ends with the first that did.
#[derive(Debug)]
pub struct InputWalk {
    /// The inputs to ask.
    pub inputs: Vec<DatabaseKeyIndex>,
    /// The revision after which a change counts.
    pub since: Revision,
    /// How many inputs answered that they did not change.
    pub position: usize,
    /// Whether an input answered that it changed.
    pub changed: bool,
}

/// An [`InputWalk`] as a mathematical value.
pub struct WalkView {
    pub inputs: Seq<DatabaseKeyIndex>,
    pub since: Revision,
    pub position: nat,
    pub changed: bool,
}

impl View for InputWalk {
    type V = WalkView;

    open spec fn view(&self) -> WalkView {
        WalkView { inputs: self.inputs@, since: self.since, position: self.position as nat, changed: self.changed }
    }
}

impl WalkView {
    /// A check of `inputs` of which none was asked yet.
    pub open spec fn begin(inputs: Seq<DatabaseKeyIndex>, since: Revision) -> WalkView {
        WalkView { inputs, since, position: 0, changed: false }
    }

    /// No more inputs were answered than there are.
    pub open spec fn wf(self) -> bool {
        self.position <= self.inputs.len()
    }

    /// The input to ask next; `None` when the check has ended.
    pub open spec fn pending(self) -> Option<DatabaseKeyIndex> {
        if self.changed || self.position >= self.inputs.len() {
            None
        } else {
            Some(self.inputs[self.position as int])
        }
    }

    /// The check after the pending input answered `changed`; a check that
    /// has ended stays as it is.
    pub open spec fn answer(self, changed: bool) -> WalkView {
        if self.pending() is None {
            self
        } else if changed {
            WalkView { changed: true, ..self }
        } else {
            WalkView { position: self.position + 1, ..self }
        }
    }

    /// The check after the answers `answers`, in their order.
    pub open spec fn answers(self, answers: Seq<bool>) -> WalkView
        decreases answers.len(),
    {
        if answers.len() == 0 {
            self
        } else {
            self.answers(answers.drop_last()).answer(answers.last())
        }
    }
}

impl InputWalk {
    /// Begins the check of `inputs` for changes after `since`.
    pub fn new(inputs: Vec<DatabaseKeyIndex>, since: Revision) -> (walk: InputWalk)
        ensures
            walk@ == WalkView::begin(inputs@, since),
            walk@.wf(),
    {
        InputWalk { inputs, since, position: 0, changed: false }
    }

    /// The revision after which a change counts.
    pub fn since(&self) -> (since: Revision)
        ensures
            since == self@.since,
    {
        self.since
    }

    /// The input to ask next, or `None` when the check has ended: an input
    /// changed, or all answered that they did not.
    pub fn pending(&self) -> (input: Option<DatabaseKeyIndex>)
        requires
            self@.wf(),
        ensures
            input == self@.pending(),
    {
        if self.changed || self.position >= self.inputs.len() {
            None
        } else {
            Some(self.inputs[self.position])
        }
    }

    /// Records the answer of the pending input.  After the check has ended
    /// an answer is ignored.
    pub fn answer(&mut self, changed: bool)
        requires
            old(self)@.wf(),
        ensures
            final(self)@ == old(self)@.answer(changed),
            final(self)@.wf(),
    {
        if self.changed || self.position >= self.inputs.len() {
        } else if changed {
            self.changed = true;
        } else {
            self.position = self.position + 1;
        }
    }

    /// Whether an input answered that it changed.
    pub fn maybe_changed(&self) -> (changed: bool)
        ensures
            changed == self@.changed,
    {
        self.changed
    }
}

/// What looking at a memo, without asking its inputs, says of its value.
#[derive(Debug)]
pub enum Validation {
    /// The value stands: mark the memo as verified and use it.
    Verified,
    /// The value cannot be used: run the query.
    Stale,
    /// The value stands unless an input changed: ask them.
    CheckInputs(InputWalk),
}

/// [`Validation`] as a mathematical value.
pub enum ValidationView {
    Verified,
    Stale,
    CheckInputs(WalkView),
}

impl View for Validation {
    type V = ValidationView;

    open spec fn view(&self) -> ValidationView {
        match self {
            Validation::Verified => ValidationView::Verified,
            Validation::Stale => ValidationView::Stale,
            Validation::CheckInputs(walk) => ValidationView::CheckInputs(walk@),
        }
    }
}

impl<V> MemoView<V> {
    /// The memo's revisions are in order and not later than `now`, and its
    /// list of inputs is well formed.
    pub open spec fn wf(self, now: Revision) -> bool {
        &&& self.changed_at@ <= self.verified_at@
        &&& self.verified_at@ <= now@
        &&& self.inputs.wf()
    }

    /// Whether no value as durable as the memo's changed since the memo was
    /// last verified, as `registry` records it.
    pub open spec fn check_durability(self, registry: Registry) -> bool {
        registry.spec_last_changed(self.durability)@ <= self.verified_at@
    }

    /// Whether the memo's query read something untracked.
    pub open spec fn has_untracked_input(self) -> bool {
        self.inputs is Untracked
    }

    /// The memo's value with its stamps.
    pub open spec fn stamped(self) -> StampedValue<V>
        recommends
            self.value is Some,
    {
        StampedValue { value: self.value->0, durability: self.durability, changed_at: self.changed_at }
    }

    /// The memo, verified in revision `now`.
    pub open spec fn verified(self, now: Revision) -> MemoView<V> {
        MemoView { verified_at: now, ..self }
    }

    /// The memo without its value.
    pub open spec fn without_value(self) -> MemoView<V> {
        MemoView { value: None, ..self }
    }

    /// The memo with its inputs forgotten.
    pub open spec fn untracked(self) -> MemoView<V> {
        MemoView { inputs: InputsView::Untracked, ..self }
    }

    /// What looking at the memo says of its value.  Without a value there is
    /// nothing to use.  With one, it stands if nothing as durable changed
    /// since it was verified; else it is lost if the query read something
    /// untracked, stands if the query read nothing, and hangs on the tracked
    /// inputs, which are to be asked for changes after the memo was last
    /// verified.
    pub open spec fn validate(self, registry: Registry) -> ValidationView {
        if self.value is None {
            ValidationView::Stale
        } else if self.check_durability(registry) {
            ValidationView::Verified
        } else {
            match self.inputs {
                InputsView::Untracked => ValidationView::Stale,
                InputsView::NoInputs => ValidationView::Verified,
                InputsView::Recorded { inputs } => ValidationView::CheckInputs(WalkView::begin(inputs, self.verified_at)),
            }
        }
    }
}

impl<V> Memo<V> {
    /// Whether no value as durable as the memo's changed since the memo was
    /// last verified.
    pub fn check_durability(&self, registry: &Registry) -> (unchanged: bool)
        ensures
            unchanged == self@.check_durability(*registry),
    {
        registry.last_changed(self.durability).le(self.verified_at)
    }

    /// Whether the memo's query read something untracked.
    pub fn has_untracked_input(&self) -> (untracked: bool)
        ensures
            untracked == self@.has_untracked_input(),
    {
        match self.inputs {
            MemoInputs::Untracked => true,
            _ => false,
        }
    }

    /// Looks at a memo that was last verified before the current revision
    /// and says whether its value stands, is lost, or hangs on its inputs.
    pub fn validate_memoized_value(&self, registry: &Registry) -> (validation: Validation)
        ensures
            validation@ == self@.validate(*registry),
            validation@ matches ValidationView::CheckInputs(walk) ==> walk.wf(),
    {
        if self.value.is_none() {
            return Validation::Stale;
        }
        if self.check_durability(registry) {
            return Validation::Verified;
        }
        match &self.inputs {
            MemoInputs::Untracked => Validation::Stale,
            MemoInputs::NoInputs => Validation::Verified,
            MemoInputs::Recorded { inputs } => Validation::CheckInputs(InputWalk::new(copy_keys(inputs), self.verified_at)),
        }
    }

    /// Records that the memo was found up to date in revision
    /// `revision_now`, and hands out a copy of its value with its stamps.
    pub fn mark_value_as_verified(&mut self, revision_now: Revision) -> (value: StampedValue<V>) where V: Clone
        requires
            old(self).value is Some,
        ensures
            final(self)@ == old(self)@.verified(revision_now),
            old(self)@.stamped().cloned_as(value),
    {
        let value = match &self.value {
            Some(v) => v.clone(),
            None => vstd::pervasive::unreached(),
        };
        self.verified_at = revision_now;
        StampedValue { durability: self.durability, changed_at: self.changed_at, value }
    }
}

/// A check that was given an answer for every input it asked has ended; it
/// found a change exactly if one of the answers it used said so, and it
/// asked the inputs in their order up to the first that changed.
pub proof fn lemma_walk_outcome(inputs: Seq<DatabaseKeyIndex>, since: Revision, answers: Seq<bool>)
    requires
        answers.len() == inputs.len(),
    ensures
        ({
            let end = WalkView::begin(inputs, since).answers(answers);
            &&& end.pending() is None
            &&& end.wf()
            &&& end.inputs == inputs
            &&& end.since == since
            &&& end.changed <==> exists|i: int| 0 <= i < answers.len() && answers[i]
            &&& forall|i: int| 0 <= i < end.position ==> !answers[i]
            &&& end.changed ==> end.position < answers.len() && answers[end.position as int]
            &&& !end.changed ==> end.position == answers.len()
        }),
{
    lemma_walk_prefix(inputs, since, answers, answers.len());
    assert(answers.take(answers.len() as int) =~= answers);
}

/// After the first `n` answers, a check has either found the first change
/// among them or has passed `n` inputs that did not change.
pub proof fn lemma_walk_prefix(inputs: Seq<DatabaseKeyIndex>, since: Revision, answers: Seq<bool>, n: nat)
    requires
        n <= answers.len(),
        answers.len() <= inputs.len(),
    ensures
        ({
            let end = WalkView::begin(inputs, since).answers(answers.take(n as int));
            &&& end.wf()
            &&& end.inputs == inputs
            &&& end.since == since
            &&& end.position <= n
            &&& end.changed <==> exists|i: int| 0 <= i < n && answers[i]
            &&& forall|i: int| 0 <= i < end.position ==> !answers[i]
            &&& end.changed ==> end.position < n && answers[end.position as int]
            &&& !end.changed ==> end.position == n
        }),
    decreases n,
{
    if n > 0 {
        lemma_walk_prefix(inputs, since, answers, (n - 1) as nat);
        let head = answers.take(n as int);
        assert(head.drop_last() =~= answers.take(n - 1));
        assert(head.last() == answers[n - 1]);
        let mid = WalkView::begin(inputs, since).answers(answers.take(n - 1));
        let end = WalkView::begin(inputs, since).answers(head);
        assert(end == mid.answer(answers[n - 1]));
        if mid.changed {
            let i = choose|i: int| 0 <= i < n - 1 && answers[i];
            assert(0 <= i < n && answers[i]);
        } else if answers[n - 1] {
            assert(0 <= n - 1 < n && answers[n - 1]);
        }
    }
}

} // verus!
