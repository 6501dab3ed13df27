//! The voice server with a flat channel list: the handlers of the control
//! stream, the voice relay and the binary message builder.

pub mod clienthandler;
pub mod configuration;
pub mod controlserver;
pub mod laws;
pub mod protos;
pub mod udphandler;
pub mod util;
