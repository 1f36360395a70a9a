//! Notes on what the engine did, for whoever wants to watch it.

use vstd::prelude::*;
use crate::key::{DatabaseKeyIndex, RuntimeId};

verus! {

/// What happened.
#[derive(Clone, Copy, Debug, PartialEq, Eq, Structural)]
pub enum EventKind {
    /// A memoized value was found to be still valid, without running its
    /// query.
    DidValidateMemoizedValue { database_key: DatabaseKeyIndex },
    /// The worker is about to wait for a slot that another worker computes.
    WillBlockOn { other_runtime_id: RuntimeId, database_key: DatabaseKeyIndex },
    /// The query of a slot was run.
    DidExecuteQuery { database_key: DatabaseKeyIndex },
    /// An input was given a value.
    DidChangeInput { database_key: DatabaseKeyIndex },
}

/// What happened, and to which worker.
#[derive(Clone, Copy, Debug, PartialEq, Eq, Structural)]
pub struct Event {
    pub runtime_id: RuntimeId,
    pub kind: EventKind,
}

} // verus!
