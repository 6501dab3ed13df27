//! The connection handlers of the control stream.

pub mod reader;
