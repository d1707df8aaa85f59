//! A background job queue: clients enqueue typed units of work, optionally
//! deferred to a future time, and workers dequeue and execute them with
//! at-most-one-active-claimant guarantees.
//!
//! The queue store is modelled over plain values (timestamps as unix
//! seconds, ids as integers); the surrounding process — HTTP handlers,
//! database drivers, worker loops — lives outside this library and calls
//! into it for every scheduling decision.

pub mod database;
pub mod endpoints;
pub mod redis;
pub mod task;
pub mod worker;
