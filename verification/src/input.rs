//! Inputs: slots whose values are set from outside and never computed.

use vstd::prelude::*;
use crate::durability::Durability;
use crate::event::{Event, EventKind};
use crate::key::{DatabaseKeyIndex, RuntimeId};
use crate::revision::{Registry, Revision};
use crate::stamped::StampedValue;

verus! {

/// A read of an input that was never set.
#[derive(Clone, Copy, Debug, PartialEq, Eq, Structural)]
pub struct UnsetInput {
    /// The input that was read.
    pub key: DatabaseKeyIndex,
}

/// The cell of one input.
#[derive(Debug)]
pub struct InputSlot<V> {
    /// Which slot of the database this is.
    pub key: DatabaseKeyIndex,
    /// The value the input was last set to, with its stamps; `None` before
    /// the first `set`.
    pub stamped_value: Option<StampedValue<V>>,
}

impl<V> InputSlot<V> {
    /// A set value changed no later than `now`.
    pub open spec fn wf(self, now: Revision) -> bool {
        self.stamped_value matches Some(value) ==> value.changed_at@ <= now@
    }

    /// Whether the input must be taken to have changed after `revision`: it
    /// was set after `revision`, or never.
    pub open spec fn spec_maybe_changed_since(self, revision: Revision) -> bool {
        match self.stamped_value {
            Some(value) => value.changed_at@ > revision@,
            None => true,
        }
    }

    /// The class of the change that setting the input to a value of class
    /// `durability` makes: the more durable of `durability` and the class of
    /// the value the input held, so that what was computed from the old value
    /// is checked again however durable it took that value to be.
    pub open spec fn change_class(self, durability: Durability) -> Durability {
        match self.stamped_value {
            Some(value) => value.durability.spec_max(durability),
            None => durability,
        }
    }

    /// The cell of the input `key`, not set yet.
    pub fn new(key: DatabaseKeyIndex) -> (slot: InputSlot<V>)
        ensures
            slot.key == key,
            slot.stamped_value is None,
    {
        InputSlot { key, stamped_value: None }
    }

    /// Which slot of the database this is.
    pub fn database_key(&self) -> (key: DatabaseKeyIndex)
        ensures
            key == self.key,
    {
        self.key
    }

    /// Sets the input to `value`, on behalf of the worker `id`.  A new
    /// revision begins, in which a value of class `durability` changed, and
    /// one of the class of the value the input held, if that was more
    /// durable; the input holds `value`, of class `durability`, changed in
    /// the new revision.
    pub fn set(&mut self, registry: &mut Registry, id: RuntimeId, value: V, durability: Durability) -> (event: Event)
        requires
            old(registry).wf(),
            old(registry).current@ < u64::MAX,
        ensures
            *final(registry) == old(registry).spec_bump(old(self).change_class(durability)),
            final(registry).wf(),
            final(self).key == old(self).key,
            final(self).stamped_value == Some(StampedValue { value, durability, changed_at: final(registry).current }),
            final(self).wf(final(registry).current),
            event == (Event { runtime_id: id, kind: EventKind::DidChangeInput { database_key: old(self).key } }),
    {
        let class = match &self.stamped_value {
            Some(old_value) => old_value.durability.max(durability),
            None => durability,
        };
        let changed_at = registry.bump(class);
        self.stamped_value = Some(StampedValue { value, durability, changed_at });
        Event { runtime_id: id, kind: EventKind::DidChangeInput { database_key: self.key } }
    }

    /// A copy of the input's value with its stamps; fails if the input was
    /// never set.
    pub fn read(&self) -> (r: Result<StampedValue<V>, UnsetInput>) where V: Clone
        ensures
            match self.stamped_value {
                Some(value) => r matches Ok(copy) && value.cloned_as(copy),
                None => r == Err::<StampedValue<V>, UnsetInput>(UnsetInput { key: self.key }),
            },
    {
        match &self.stamped_value {
            Some(value) => Ok(value.clone()),
            None => Err(UnsetInput { key: self.key }),
        }
    }

    /// Whether the input was set after `revision`.  An input that was never
    /// set is taken to have changed.
    pub fn maybe_changed_since(&self, revision: Revision) -> (changed: bool)
        ensures
            changed == self.spec_maybe_changed_since(revision),
    {
        match &self.stamped_value {
            Some(value) => value.changed_at.gt(revision),
            None => true,
        }
    }
}

} // verus!
