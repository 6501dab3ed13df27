//! Control messages exchanged over the TCP stream.

pub mod han_message;

use vstd::prelude::*;
use crate::framing::{header_bytes, header_len};

verus! {

/// Envelope header that precedes every message on the stream.
#[derive(Debug, Clone, PartialEq, Eq, Hash)]
pub struct StreamHeader {
    pub magic: u32,
    pub length: u32,
}

impl StreamHeader {
    /// The number of bytes that the header takes on the wire: five for each
    /// field that is not zero.
    pub fn encoded_len(&self) -> (res: usize)
        ensures
            res == header_bytes(self.magic, self.length).len(),
    {
        header_len(self.magic, self.length)
    }
}

/// A control message: its identifier and its payload.
#[derive(Debug, Clone, PartialEq, Eq, Hash)]
pub struct HanMessage {
    pub message_id: Vec<u8>,
    pub msg: Option<han_message::Msg>,
}

/// Login, nothing works before that.
#[derive(Debug, Clone, PartialEq, Eq, Hash)]
pub struct Auth {
    pub username: String,
}

/// Answer to a login.
#[derive(Debug, Clone, PartialEq, Eq, Hash)]
pub struct AuthResult {
    pub success: bool,
    pub connection_id: Vec<u8>,
}

/// List all channels.
#[derive(Debug, Clone, PartialEq, Eq, Hash)]
pub struct ChannelList {

}

/// One channel of a channel list.
#[derive(Debug, Clone, PartialEq, Eq, Hash)]
pub struct ChannelListentry {
    pub name: String,
    pub channel_id: Vec<u8>,
}

/// The channel list.
#[derive(Debug, Clone, PartialEq, Eq, Hash)]
pub struct ChannelListResult {
    pub channel: Vec<ChannelListentry>,
}

/// Create a channel.
#[derive(Debug, Clone, PartialEq, Eq, Hash)]
pub struct ChannelCreate {
    pub name: String,
}

/// Answer to a channel creation.
#[derive(Debug, Clone, PartialEq, Eq, Hash)]
pub struct ChannelCreateResult {
    pub success: bool,
    pub name: String,
    pub channel_id: Vec<u8>,
}

/// Delete a channel.
#[derive(Debug, Clone, PartialEq, Eq, Hash)]
pub struct ChannelDelete {
    pub name: String,
}

/// Answer to a channel deletion.
#[derive(Debug, Clone, PartialEq, Eq, Hash)]
pub struct ChannelDeleteResult {
    pub success: bool,
    pub name: String,
    pub channel_id: Vec<u8>,
}

/// Join a channel. Automatically leaves current channel.
#[derive(Debug, Clone, PartialEq, Eq, Hash)]
pub struct ChannelJoin {
    pub name: String,
}

/// Answer to a join.
#[derive(Debug, Clone, PartialEq, Eq, Hash)]
pub struct ChannelJoinResult {
    pub success: bool,
    pub channel_id: Vec<u8>,
}

/// Leave current channel.
#[derive(Debug, Clone, PartialEq, Eq, Hash)]
pub struct ChannelPart {

}

/// Answer to a part.
#[derive(Debug, Clone, PartialEq, Eq, Hash)]
pub struct ChannelPartResult {
    pub success: bool,
    pub name: String,
    pub channel_id: Vec<u8>,
}

/// List stats for a channel.
#[derive(Debug, Clone, PartialEq, Eq, Hash)]
pub struct ChannelStatus {
    pub name: String,
}

/// A user in a channel status.
#[derive(Debug, Clone, PartialEq, Eq, Hash)]
pub struct UserEntry {
    pub name: String,
    pub user_id: Vec<u8>,
}

/// The status of a channel.
#[derive(Debug, Clone, PartialEq, Eq, Hash)]
pub struct ChannelStatusResult {
    pub name: String,
    pub channel_id: Vec<u8>,
    pub user: Vec<UserEntry>,
}

/// List your own status.
#[derive(Debug, Clone, PartialEq, Eq, Hash)]
pub struct Status {

}

/// Your own status.
#[derive(Debug, Clone, PartialEq, Eq, Hash)]
pub struct StatusResult {
    pub connection_id: Vec<u8>,
    pub channel: String,
    pub name: String,
}

/// Someone joined your current channel.
#[derive(Debug, Clone, PartialEq, Eq, Hash)]
pub struct ChannelJoinEvent {
    pub channel_name: String,
    pub channel_id: Vec<u8>,
    pub user_name: String,
    pub user_id: String,
}

/// Someone left your channel.
#[derive(Debug, Clone, PartialEq, Eq, Hash)]
pub struct ChannelPartEvent {
    pub channel_name: String,
    pub channel_id: Vec<u8>,
    pub user_name: String,
    pub user_id: String,
    pub reason: String,
}

} // verus!
