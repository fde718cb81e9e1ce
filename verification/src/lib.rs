//! A Viewstamped Replication engine: an odd-sized cluster of replicas keeps
//! a user-supplied deterministic state machine consistent in the face of
//! message loss, duplication, and reordering.
//!
//! The library is pure protocol logic. Each replica is a single-threaded
//! actor: `Replica::on_message` and `Replica::on_idle` mutate only the
//! replica they are called on and record outbound messages in an outbox
//! that the host drains and delivers however it likes — in memory, over a
//! network, or under a simulation. Transport, threads, timers and logging
//! stay with the host.
//!
//! Every handler carries a transition relation as its contract: what the
//! message does to the replica's state and exactly which messages it sends.
//! On top of those, the crate states and proves the protocol's local
//! invariants — the view number never decreases, the operation counter
//! equals the log length, operations are applied to the state machine in
//! strictly increasing position order and never re-applied, a `PrepareOk`
//! re-delivered after commit changes nothing, and the primary commits an
//! operation only with a quorum of acknowledgments counted.
//!
//! The `cluster` module lifts those same transition relations to a model of
//! a whole cluster over a lossy, duplicating, reordering transport, and
//! proves agreement under it for a fixed view: any two replicas hold the
//! same operation at every position both have committed, and no two state
//! machines ever diverge.

pub mod client;
pub mod cluster;
pub mod config;
pub mod message;
pub mod replica;
pub mod state_machine;

pub use client::Client;
pub use config::Config;
pub use message::Message;
pub use message::MessageView;
pub use replica::Replica;
pub use replica::Status;
pub use state_machine::Accumulator;
pub use state_machine::Op;
pub use state_machine::StateMachine;
