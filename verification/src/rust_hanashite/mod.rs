//! The server with roles and named channels, and the protocol definitions
//! that its successor shares.

pub mod protos;
pub mod server;
