//! Values as the engine hands them around: stamped with the revision in
//! which they last changed and with their durability.

use vstd::prelude::*;
use crate::durability::Durability;
use crate::key::{DatabaseKeyIndex, RuntimeId};
use crate::revision::Revision;

verus! {

/// A value, the revision in which it last changed, and how durable it is.
#[derive(Debug)]
pub struct StampedValue<V> {
    pub value: V,
    pub durability: Durability,
    pub changed_at: Revision,
}

impl<V> StampedValue<V> {
    /// `copy` carries the stamps of `self` and a clone of its value.
    pub open spec fn cloned_as(self, copy: StampedValue<V>) -> bool where V: Clone {
        &&& cloned(self.value, copy.value)
        &&& copy.durability == self.durability
        &&& copy.changed_at == self.changed_at
    }
}

impl<V: Clone> Clone for StampedValue<V> {
    fn clone(&self) -> (copy: Self)
        ensures
            self.cloned_as(copy),
    {
        StampedValue {
            value: self.value.clone(),
            durability: self.durability,
            changed_at: self.changed_at,
        }
    }
}

/// A worker found that waiting for a slot would close a circle of workers
/// that wait for each other: `from` is the worker that wanted to wait, `to`
/// the one that owns the slot.
#[derive(Clone, Copy, Debug, PartialEq, Eq, Structural)]
pub struct CycleDetected {
    pub from: RuntimeId,
    pub to: RuntimeId,
}

/// A read failed because its query takes part in a cycle from which no
/// participant could recover.
#[derive(Debug)]
pub struct CycleError<K> {
    /// The slots on the cycle.
    pub cycle: Vec<K>,
    pub changed_at: Revision,
    pub durability: Durability,
}

impl<K> CycleError<K> {
    /// What a read that ran into this cycle comes to: the value its recovery
    /// produced, under the stamps of the error, or the error if there was no
    /// recovery.
    pub fn into_read_result<V>(self, recovered: Option<V>) -> (r: Result<StampedValue<V>, CycleError<K>>)
        ensures
            recovered is Some ==> r == Ok::<StampedValue<V>, CycleError<K>>(
                (StampedValue { value: recovered->0, durability: self.durability, changed_at: self.changed_at }),
            ),
            recovered is None ==> r == Err::<StampedValue<V>, CycleError<K>>(self),
    {
        match recovered {
            Some(value) => Ok(StampedValue { value, durability: self.durability, changed_at: self.changed_at }),
            None => Err(self),
        }
    }
}

/// What a worker that asked whether a slot changed after `revision`, and had
/// to read the slot to find out, concludes from the read: the slot changed
/// if the read failed or gave a value that changed after `revision`.
pub fn changed_since<V, K>(read: &Result<StampedValue<V>, CycleError<K>>, revision: Revision) -> (changed: bool)
    ensures
        changed == match read {
            Ok(value) => value.changed_at@ > revision@,
            Err(_) => true,
        },
{
    match read {
        Ok(value) => value.changed_at.gt(revision),
        Err(_) => true,
    }
}

/// What the owner of a slot hands to the workers that waited for it: the
/// value it arrived at and, when the computation ran into a cycle, the slots
/// on that cycle.
#[derive(Debug)]
pub struct WaitResult<V, K> {
    pub value: StampedValue<V>,
    pub cycle: Vec<K>,
}

impl<V, K> WaitResult<V, K> {
    /// The result that carries `value` and `cycle`.
    pub fn new(value: StampedValue<V>, cycle: Vec<K>) -> (r: Self)
        ensures
            r.value == value,
            r.cycle@ == cycle@,
    {
        WaitResult { value, cycle }
    }

    /// Whether the owner ran into a cycle, so that the waiter has to try to
    /// recover before it can use the value.
    pub fn is_cycle(&self) -> (b: bool)
        ensures
            b == (self.cycle@.len() > 0),
    {
        self.cycle.len() > 0
    }

    /// What a waiter that asked whether the slot changed after `revision`
    /// concludes: the slot changed if the owner ran into a cycle or arrived
    /// at a value that changed after `revision`.
    pub fn maybe_changed_since(&self, revision: Revision) -> (changed: bool)
        ensures
            changed == (self.cycle@.len() > 0 || self.value.changed_at@ > revision@),
    {
        self.cycle.len() > 0 || self.value.changed_at.gt(revision)
    }

    /// What a waiter that asked for the value gets.  Without a cycle it is
    /// the owner's value.  With a cycle it is the value the waiter's recovery
    /// produced, under the owner's stamps; without a recovery the read fails
    /// with the owner's cycle and stamps.
    pub fn into_read_result(self, recovered: Option<V>) -> (r: Result<StampedValue<V>, CycleError<K>>)
        ensures
            self.cycle@.len() == 0 ==> r == Ok::<StampedValue<V>, CycleError<K>>(self.value),
            self.cycle@.len() > 0 && recovered is Some ==> r == Ok::<StampedValue<V>, CycleError<K>>(
                (StampedValue {
                    value: recovered->0,
                    durability: self.value.durability,
                    changed_at: self.value.changed_at,
                }),
            ),
            self.cycle@.len() > 0 && recovered is None ==> {
                &&& r is Err
                &&& r->Err_0.cycle@ == self.cycle@
                &&& r->Err_0.changed_at == self.value.changed_at
                &&& r->Err_0.durability == self.value.durability
            },
    {
        if self.cycle.len() == 0 {
            Ok(self.value)
        } else {
            let durability = self.value.durability;
            let changed_at = self.value.changed_at;
            match recovered {
                Some(value) => Ok(StampedValue { value, durability, changed_at }),
                None => Err(CycleError { cycle: self.cycle, changed_at, durability }),
            }
        }
    }
}

impl<V: Clone> WaitResult<V, DatabaseKeyIndex> {
    /// A copy for one more waiter.
    pub fn duplicate(&self) -> (copy: Self)
        ensures
            self.value.cloned_as(copy.value),
            copy.cycle@ == self.cycle@,
    {
        WaitResult { value: self.value.clone(), cycle: crate::key::copy_keys(&self.cycle) }
    }
}

} // verus!
