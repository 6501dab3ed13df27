//! The control and voice protocols.

pub mod hanmessage;
pub mod udpmessage;
