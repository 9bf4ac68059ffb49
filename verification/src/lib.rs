//! The verified core of RDoWS, RDMA semantics over WebSocket transport.
//!
//! The crate holds the protocol's decisions as functions from state and event
//! to next state and frames to send: the client's verbs and completion queue,
//! the server's session and memory regions, and a key-value store laid out in
//! one remote memory region. Sockets, TLS, the byte codec of the frames and
//! the event loops stand outside.
#![allow(unused_imports)]
use vstd::prelude::*;

pub mod args;
pub mod buffer;
pub mod client;
pub mod completion;
pub mod connection;
pub mod error;
pub mod frame;
pub mod kv;
pub mod laws;
pub mod memory;
pub mod message;
pub mod opcode;
pub mod queue;
pub mod random;
pub mod server;
pub mod subprotocol;
pub mod text;
pub mod tls;

verus! {

/// Protocol version carried in every frame header.
pub const RDOWS_VERSION: u8 = 1;

/// Largest message either side accepts, before negotiation.
pub const DEFAULT_MAX_MSG_SIZE: u32 = 16_777_216;

/// Initial credit count that both sides advertise.
pub const DEFAULT_ICC: u32 = 65_535;

/// The WebSocket subprotocol that both sides speak.
pub const SUBPROTOCOL: &'static str = "rdows.v1";

} // verus!
