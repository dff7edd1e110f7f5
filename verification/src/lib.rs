//! The runtime of an island-model simulation that spans several hosts.
//!
//! A host runs a number of islands, each in a task of its own with a mailbox
//! of its own. Islands of one host reach one another through their address
//! books; what is meant for another host goes through the dispatcher, the one
//! task that publishes, and comes in through the collector, the one task that
//! subscribes. Hosts find one another in a handshake that a coordinator or a
//! sync server runs, and the sync server, where there is one, releases the
//! turns of the whole cluster.
//!
//! This crate holds the rules of that runtime, proved against their
//! contracts: the codec of the wire, the routing inside a host and between
//! hosts, the handshake, and the turn loops. It owns no socket and starts no
//! task. Its state machines say what is to be done next; the program around
//! it does it and reports back.

pub mod address_book;
pub mod chance;
pub mod channel;
pub mod codec;
pub mod collector;
pub mod dispatcher;
pub mod ids;
pub mod island;
pub mod message;
pub mod metrics;
pub mod network;
pub mod ordering;
pub mod records;
pub mod seq_util;
pub mod server;
pub mod settings;
pub mod simulation;
pub mod text;
pub mod utils;
pub mod worker;
