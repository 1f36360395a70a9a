//! The memoization core of an incremental, on-demand computation engine.
//!
//! Queries are pure functions whose results are cached per key in a *slot*.
//! Every cached value carries the revision at which it last changed and the
//! durability of the inputs it was derived from, so that a later read can
//! decide, without running the query again, whether the cached value still
//! stands.  The functions here make those decisions; the caller runs the
//! query functions, takes the locks and parks the workers.
//!
//! * [`revision`], [`durability`]: logical time, and how seldom values
//!   change.
//! * [`active_query`], [`query_stack`], [`runtime`]: what a worker records
//!   of the queries it runs.
//! * [`memo`], [`slot`], [`read`], [`changed`]: the slot and its states:
//!   reading it, bringing it up to date, asking it whether it changed.
//! * [`wait_graph`], [`waiters`]: workers that wait for each other, and the
//!   circles that are refused.
//! * [`input`], [`interned`], [`storage`], [`lru`], [`sweep`]: the tables.
//! * [`database`]: all of it together, for one worker.
//! * [`query_group`], [`names`], [`capacity`]: what the declaration of a
//!   query comes to.
//! * [`laws`]: what holds of the whole.

pub mod active_query;
pub mod capacity;
pub mod changed;
pub mod database;
pub mod durability;
pub mod event;
pub mod input;
pub mod interned;
pub mod key;
pub mod laws;
pub mod lru;
pub mod memo;
pub mod names;
pub mod query_group;
pub mod query_stack;
pub mod read;
pub mod revision;
pub mod runtime;
pub mod slot;
pub mod stamped;
pub mod storage;
pub mod sweep;
pub mod wait_graph;
pub mod waiters;
