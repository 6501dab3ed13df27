//! Packets of the voice channel (UDP).

pub mod han_udp_message;

use vstd::prelude::*;

verus! {

/// Envelope of a voice packet: the sending connection and the payload.
#[derive(Debug, Clone, PartialEq, Eq, Hash)]
pub struct HanUdpMessage {
    pub connection_id: Vec<u8>,
    pub msg: Option<han_udp_message::Msg>,
}

/// Keepalive packet; it also registers the client's UDP address.
#[derive(Debug, Clone, PartialEq, Eq, Hash)]
pub struct PingPacket {}

/// A frame of audio.
#[derive(Debug, Clone, PartialEq, Eq, Hash)]
pub struct AudioPacket {
    pub channel_id: Vec<u8>,
    pub sequence_id: u64,
    pub data: Vec<u8>,
}

} // verus!
