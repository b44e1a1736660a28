//! Coordination core of a sharded saga engine.
//!
//! A saga is a transaction of several steps, each of which runs on one shard
//! and names the shard on which the next step has to run. This crate holds the
//! decisions of the task that drives a saga: whether to step again, to stop, or
//! to hand the saga over to another shard, and how to judge each answer of the
//! shard that is asked to take it.
//!
//! The crate performs no calls and awaits nothing. The task that drives a
//! saga invokes the step, performs the remote call, and asks this crate what
//! to do with each result.

pub mod dispatcher;
pub mod handoff;
pub mod shard;
