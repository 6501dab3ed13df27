//! Errors of the server's logic.

use vstd::prelude::*;
use crate::framing::DecodeError;

verus! {

/// Why a message was refused.
#[derive(Debug, Clone, PartialEq, Eq)]
pub enum Error {
    InternalError(String),
    ProtobufError(DecodeError),
    ProtocolError(String),
}

/// A protocol error with the given text.
pub fn protocol_error(text: &str) -> (res: Error)
    ensures
        res matches Error::ProtocolError(m) && m@ == text@,
{
    Error::ProtocolError(text.to_owned())
}

} // verus!
