//! The local control channel of a long-running service: framed messages,
//! the decisions of the listener and of the command-line client, and the
//! discipline of the output handle that a dispatched command writes through.

pub mod client;
pub mod endpoint;
pub mod launch;
pub mod listener;
pub mod message;
pub mod remote;
pub mod wire;
