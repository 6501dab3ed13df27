//! The authenticating voice server: configuration, connections, users, the
//! login handshake and voice channels.

pub mod configuration;
pub mod error;
pub mod server;
pub mod tcp;
