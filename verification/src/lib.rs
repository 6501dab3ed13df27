//! Verified core of the hanashite voice-chat server family: wire framing,
//! identifier handling, and the connection, authentication and channel state
//! machines of the servers.

pub mod ids;
pub mod net;
pub mod crypto;
pub mod framing;
pub mod hanashite_server;
pub mod idset;
pub mod rust_hanashite;
pub mod rust_server;
pub mod hanashite_message;
