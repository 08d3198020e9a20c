//! Protocol engine of a peer-to-peer overlay.
//!
//! Nodes speak a binary protocol over TCP: they find each other through
//! gossip, keep a bounded number of connections, measure the latency of
//! each, and flood application data to all peers, each message delivered
//! once. This crate is the engine of such a node as functions of plain
//! values: it never touches a socket, a clock or a thread. Whoever owns the
//! sockets hands in what was read and what time it is, and carries out what
//! comes back.
//!
//! - [`frames`] and [`message`]: the wire format in frames of 256 bytes,
//!   frame by frame and message by message, with the proof of what a message
//!   that is written reads as at the other end.
//! - [`state`]: the peer table with a mailbox per peer, the table of
//!   broadcast ids seen, the id generator, and the queues to the outside.
//! - [`client`] and [`server`]: the two sides of the handshake.
//! - [`handle_stream`], [`read_stream`] and [`ping_stream`]: one connection,
//!   one event at a time, and its ping timer.
//! - [`broadcast`]: what the application asks for.
//! - [`triangle`]: the integers behind a peer's bearing.
//! - [`bootstrap`]: the registry that a first node asks for a peer.
//! - [`ui`]: the bytes that drive the terminal.
//!
//! Every contract is stated over the mathematical view of the state, and
//! the laws that tie several operations together are proof functions next to
//! the operations they are about.

pub mod addr;
pub mod bootstrap;
pub mod broadcast;
pub mod client;
pub mod commands;
pub mod error;
pub mod frames;
pub mod handle_stream;
pub mod message;
pub mod node_info;
pub mod package;
pub mod ping_stream;
pub mod prng;
pub mod read_stream;
pub mod server;
pub mod state;
pub mod stream;
pub mod triangle;
pub mod ui;
