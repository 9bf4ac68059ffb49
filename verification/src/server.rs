//! The server's end of a session.
use vstd::prelude::*;

pub mod calls;
pub mod effects;
pub mod handler;
pub mod laws;
pub mod memory_store;
pub mod session;

verus! {

/// What the operator of a server chooses.
pub struct ServerConfig {
    /// How many messages a session can receive.
    pub recv_queue_depth: u32,
}

impl Default for ServerConfig {
    fn default() -> (r: ServerConfig)
        ensures
            r.recv_queue_depth == 128,
    {
        ServerConfig { recv_queue_depth: 128 }
    }
}

} // verus!
