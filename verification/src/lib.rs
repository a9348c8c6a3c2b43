//! A single participant of a gossiping cluster, as a verified state machine.
//!
//! The node answers requests (handshake, echo, unique ids, value submission and
//! read-back, topology updates) and, round by round, re-sends every value it
//! knows to its neighbours. Nothing here reads or writes a stream: a caller
//! hands in decoded envelopes and sends out the envelopes it gets back.

pub mod address;
pub mod laws;
pub mod message;
pub mod node;
pub mod store;
pub mod unique;

pub use message::{Adjacency, Gossiped, Message, MessageBody, Payload};
pub use node::EchoNode;
pub use store::BroadcastStore;
