//! Control messages exchanged over the TCP stream.

pub mod auth_response;
pub mod han_message;

use vstd::prelude::*;
use crate::framing::{header_bytes, header_len};

verus! {

/// Envelope header that precedes every message on the stream.
#[derive(Debug, Clone, Copy, PartialEq, Eq)]
pub struct StreamHeader {
    pub magic: u32,
    pub length: u32,
}

impl StreamHeader {
    /// The number of bytes that the header takes on the wire: five for each
    /// field that is not zero.
    pub fn encoded_len(&self) -> (res: usize)
        ensures
            res == header_bytes(self.magic, self.length).len(),
    {
        header_len(self.magic, self.length)
    }
}

/// A control message: its identifier and its payload.
#[derive(Debug, Clone, PartialEq, Eq)]
pub struct HanMessage {
    pub message_id: Vec<u8>,
    pub msg: Option<han_message::Msg>,
}

/// Login, nothing works before that.
#[derive(Debug, Clone, PartialEq, Eq)]
pub struct Auth {
    pub username: String,
    pub public_key: Vec<u8>,
}

/// The outcome of a login.
#[derive(Debug, Clone, PartialEq, Eq)]
pub struct AuthResponse {
    pub result: i32,
    pub user_id: u32,
    pub message: String,
}

/// The bytes a client has to sign to prove that it holds its key.
#[derive(Debug, Clone, PartialEq, Eq)]
pub struct Challenge {
    pub chellange: Vec<u8>,
}

/// The client's signature of a challenge.
#[derive(Debug, Clone, PartialEq, Eq)]
pub struct ChallengeResponse {
    pub signature: Vec<u8>,
}

/// Request to join a voice channel.
#[derive(Debug, Clone, PartialEq, Eq)]
pub struct VoiceChannelJoin {
    pub name: String,
}

/// Answer to a voice channel join.
#[derive(Debug, Clone, PartialEq, Eq)]
pub struct VoiceChannelJoinResponse {
    pub success: bool,
    pub channel_id: Vec<u8>,
    pub message: String,
}

} // verus!
