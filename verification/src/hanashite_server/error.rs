//! Errors of the server's logic.

use vstd::prelude::*;
use crate::framing::DecodeError;

verus! {

/// Why a request failed.
#[derive(Debug, Clone, PartialEq, Eq)]
pub enum Error {
    InternalError(String),
    ProtobufError(DecodeError),
    ProtocolError(String),
    PermissionDenied,
}

impl Error {
    /// The error's text: the message it carries, or the name of the kind.
    pub fn to_string(&self) -> (res: String)
        ensures
            match self {
                Error::InternalError(m) => res@ == m@,
                Error::ProtocolError(m) => res@ == m@,
                Error::ProtobufError(_) => res@ == "failed to decode Protobuf message"@,
                Error::PermissionDenied => res@ == "PermissionDenied"@,
            },
    {
        match self {
            Error::InternalError(m) => m.clone(),
            Error::ProtocolError(m) => m.clone(),
            Error::ProtobufError(_) => "failed to decode Protobuf message".to_owned(),
            Error::PermissionDenied => "PermissionDenied".to_owned(),
        }
    }
}

/// An internal error with the given text.
pub fn internal_error(text: &str) -> (res: Error)
    ensures
        res matches Error::InternalError(m) && m@ == text@,
{
    Error::InternalError(text.to_owned())
}

/// A protocol error with the given text.
pub fn protocol_error(text: &str) -> (res: Error)
    ensures
        res matches Error::ProtocolError(m) && m@ == text@,
{
    Error::ProtocolError(text.to_owned())
}

} // verus!
