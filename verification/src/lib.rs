//! Ownership store, leader forwarding and packet routing for a clustered
//! message broker.
//!
//! Each broker node terminates client connections ("channels"); the cluster
//! agrees, through a replicated log, on which node owns which channel, so
//! that a packet for a channel reaches the node that holds it.
//!
//! - [`protocol`]: the packets and their line forms.
//! - [`channel`], [`router`]: channel ids, ownership records, and the
//!   decision where a packet goes.
//! - [`raft`], [`log`], [`state_machine`], [`store`]: the replicated log, the
//!   applied ownership records, votes and snapshots.
//! - [`wire`], [`snapshot`], [`payload`]: the byte forms of what travels
//!   between nodes and what a snapshot carries.
//! - [`pool`], [`network`], [`rpc`]: pooled connections, and the calls of the
//!   consensus layer with their JSON messages.
//! - [`client`]: the write client that follows the leader.
//! - [`server`], [`session`]: what the broker decides about a client
//!   connection, and the channels that the node terminates.
//! - [`text`], [`future_util`]: numerals and characters; running a task
//!   again.

pub mod channel;
pub mod client;
pub mod future_util;
pub mod log;
pub mod network;
pub mod payload;
pub mod pool;
pub mod protocol;
pub mod raft;
pub mod router;
pub mod rpc;
pub mod server;
pub mod session;
pub mod snapshot;
pub mod state_machine;
pub mod store;
pub mod text;
pub mod wire;
