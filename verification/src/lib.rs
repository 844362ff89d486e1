//! The decision core of a based rollup node.
//!
//! The crate holds every rule by which the node builds, verifies, submits,
//! rewinds and re-derives L2 blocks, as plain data and total functions on it.
//! Reading headers, talking to L1 and driving the execution engine is left to
//! the caller, which performs an action and hands its outcome back.

pub mod builder_machine;
pub mod config;
pub mod counting;
pub mod cross_chain;
pub mod derivation;
pub mod derive_walk;
pub mod driver;
pub mod flush;
pub mod flush_machine;
pub mod flush_plan;
pub mod flush_precheck;
pub mod fork_choice;
pub mod gas;
pub mod hold;
pub mod journal;
pub mod pending_queue;
pub mod preconfirmation;
pub mod primitives;
pub mod protocol_txs;
pub mod queues;
pub mod recovery;
pub mod replay;
mod sealed;
pub mod step;
pub mod step_builder;
pub mod step_machine;
pub mod text;
pub mod transactions;
pub mod triggers;
pub mod verify;
