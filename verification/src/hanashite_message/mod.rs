//! The message crate shared by client and server: the control messages, the
//! identifier helpers and the stream codec.

pub mod codec;
pub mod protos;
