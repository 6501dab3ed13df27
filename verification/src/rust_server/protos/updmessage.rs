//! Voice packets of the first relay, and their encoded sizes.
//!
//! A packet is a protocol-buffers message; its fields carry two-byte keys,
//! and a field holding its type's default value is left out.

use vstd::prelude::*;

verus! {

/// A voice packet: the sending user and an optional audio frame.
#[derive(Debug, Default, PartialEq, Eq, Clone)]
pub struct HanUdpMessage {
    pub user_id: Vec<u8>,
    pub audio_frame: Option<AudioPacket>,
}

/// A frame of audio.
#[derive(Debug, Default, PartialEq, Eq, Clone)]
pub struct AudioPacket {
    pub channel_id: Vec<u8>,
    pub sequernce_id: u64,
    pub data: Vec<u8>,
}

/// The number of bytes of the varint encoding of `v`: one per started group
/// of seven bits, at least one.
pub open spec fn varint_len(v: int) -> int {
    if v <= 0x7F {
        1
    } else if v <= 0x3FFF {
        2
    } else if v <= 0x1FFFFF {
        3
    } else if v <= 0xFFFFFFF {
        4
    } else if v <= 0x7FFFFFFFF {
        5
    } else if v <= 0x3FFFFFFFFFF {
        6
    } else if v <= 0x1FFFFFFFFFFFF {
        7
    } else if v <= 0xFFFFFFFFFFFFFF {
        8
    } else if v <= 0x7FFFFFFFFFFFFFFF {
        9
    } else {
        10
    }
}

/// The number of bytes of a length-delimited chunk of `len` bytes.
pub open spec fn len_size(len: int) -> int {
    varint_len(len) + len
}

/// The encoded size of an audio frame.
pub open spec fn audio_packet_size(p: AudioPacket) -> int {
    (if p.channel_id@.len() == 0 { 0 } else { 2 + len_size(p.channel_id@.len() as int) })
        + (if p.sequernce_id == 0 { 0 } else { 2 + varint_len(p.sequernce_id as int) })
        + (if p.data@.len() == 0 { 0 } else { 2 + len_size(p.data@.len() as int) })
}

/// The encoded size of a voice packet.
pub open spec fn udp_message_size(m: HanUdpMessage) -> int {
    (if m.user_id@.len() == 0 { 0 } else { 2 + len_size(m.user_id@.len() as int) })
        + match m.audio_frame {
        None => 0,
        Some(p) => 2 + len_size(audio_packet_size(p)),
    }
}

/// Calls `quick_protobuf::sizeofs::sizeof_varint`: the number of bytes of
/// the varint encoding of `v`.
#[verifier::external_body]
fn sizeof_varint(v: u64) -> (res: usize)
    ensures
        res == varint_len(v as int),
{
    quick_protobuf::sizeofs::sizeof_varint(v)
}

/// Calls `quick_protobuf::sizeofs::sizeof_len`: the varint size of `len`
/// plus `len`.
#[verifier::external_body]
fn sizeof_len(len: usize) -> (res: usize)
    requires
        len_size(len as int) <= usize::MAX,
    ensures
        res == len_size(len as int),
{
    quick_protobuf::sizeofs::sizeof_len(len)
}

impl AudioPacket {
    /// The encoded size of this frame.
    pub fn get_size(&self) -> (res: usize)
        requires
            audio_packet_size(*self) <= usize::MAX,
        ensures
            res == audio_packet_size(*self),
    {
        let a = if self.channel_id.len() == 0 { 0 } else { 2 + sizeof_len(self.channel_id.len()) };
        let b = if self.sequernce_id == 0u64 { 0 } else { 2 + sizeof_varint(self.sequernce_id) };
        let c = if self.data.len() == 0 { 0 } else { 2 + sizeof_len(self.data.len()) };
        a + b + c
    }
}

impl HanUdpMessage {
    /// The encoded size of this packet.
    pub fn get_size(&self) -> (res: usize)
        requires
            udp_message_size(*self) <= usize::MAX,
        ensures
            res == udp_message_size(*self),
    {
        let a = if self.user_id.len() == 0 { 0 } else { 2 + sizeof_len(self.user_id.len()) };
        let b = match &self.audio_frame {
            None => 0,
            Some(m) => {
                let inner = m.get_size();
                2 + sizeof_len(inner)
            },
        };
        a + b
    }
}

} // verus!
