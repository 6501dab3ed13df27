//! The voice relay: what a voice packet does and where it is forwarded.

use vstd::prelude::*;
use crate::framing::{decode_header, decode_header_spec, encode_header, header_bytes, DecodeError};
use crate::ids::{uuid_as_bytes, uuid_bytes, uuid_from_slice};
use crate::idset::key_pos;
use crate::rust_hanashite::protos::hanmessage::StreamHeader;
use crate::rust_hanashite::protos::udpmessage::{HanUdpMessage, PingPacket};
use crate::rust_hanashite::protos::udpmessage::han_udp_message::Msg;
use super::clienthandler::MAGIC;
use super::controlserver::{
    audio_targets, collect_targets, find_channel_with, first_channel_with, ClientView, PeerAddr, ServerState,
};
use super::util::{protocol_error, Error};

verus! {

/// A packet to send to some addresses.
#[derive(Debug, Clone, PartialEq, Eq)]
pub enum InternalUdpMsg {
    DISCONNECT,
    SENDPACKAGE(HanUdpMessage, Vec<PeerAddr>),
}

/// What the relay does with a received voice packet.
#[derive(Debug, Clone, PartialEq, Eq)]
pub enum UdpAction {
    /// Forward the received packet to these addresses.
    Forward(Vec<PeerAddr>),
    /// Send this packet.
    Send(InternalUdpMsg),
    /// Nothing to send.
    Nothing,
}

/// Codec of the voice packets.
pub struct UdpMessageParser {}

/// Checks the framing of a received datagram: the message follows the first
/// ten bytes. A datagram shorter than ten bytes is refused ("Udp Packet to
/// small for Header."), one whose header has another magic number or
/// another length too ("MAGIC is gone !").
pub fn parse_msg(bytes: &[u8]) -> (res: Result<StreamHeader, Error>)
    ensures
        bytes@.len() < 10 ==> (res matches Err(Error::ProtocolError(m)) && m@ == "Udp Packet to small for Header."@),
        bytes@.len() >= 10 ==> match decode_header_spec(bytes@.subrange(0, 10)) {
            None => res == Err::<StreamHeader, Error>(Error::ProtobufError(DecodeError)),
            Some((m, l)) => if m != MAGIC || l != bytes@.len() - 10 {
                res matches Err(Error::ProtocolError(e)) && e@ == "MAGIC is gone !"@
            } else {
                res == Ok::<StreamHeader, Error>(StreamHeader { magic: m, length: l })
            },
        },
{
    if bytes.len() < 10 {
        return Err(protocol_error("Udp Packet to small for Header."));
    }
    let head = vstd::slice::slice_subrange(bytes, 0, 10);
    let (magic, length) = match decode_header(head) {
        Ok(h) => h,
        Err(e) => return Err(Error::ProtobufError(e)),
    };
    if magic != MAGIC || (length as u64) != (bytes.len() as u64) - 10 {
        return Err(protocol_error("MAGIC is gone !"));
    }
    Ok(StreamHeader { magic, length })
}

/// A ping from `addr` for client `user_id`: if the client is connected, its
/// voice address becomes `addr` and a ping goes back to `addr`.
pub fn handle_ping(addr: &PeerAddr, state: &mut ServerState, user_id: u128) -> (res: UdpAction)
    requires
        old(state)@.wf(),
    ensures
        final(state)@.wf(),
        final(state)@.channels == old(state)@.channels,
        match key_pos(old(state)@.clients, user_id) {
            Some(i) => {
                &&& final(state)@.clients == old(state)@.clients.update(
                    i,
                    (user_id, ClientView { udp_socket: Some(*addr), ..old(state)@.clients[i].1 }),
                )
                &&& res matches UdpAction::Send(InternalUdpMsg::SENDPACKAGE(p, to)) && p.connection_id@ == uuid_bytes(user_id)
                    && p.msg == Some(Msg::PingPacket(PingPacket {})) && to@ == seq![*addr]
            },
            None => final(state)@ == old(state)@ && res == UdpAction::Nothing,
        },
{
    let ghost old_v = state@;
    let known = match crate::idset::find_key(&state.clients, user_id) {
        Some(i) => {
            proof {
                crate::idset::lemma_key_pos_unique(old_v.clients, user_id, i as int);
            }
            true
        },
        None => false,
    };
    state.register_udp_socket(addr, user_id);
    if known {
        let mut to: Vec<PeerAddr> = Vec::new();
        to.push(*addr);
        assert(to@ =~= seq![*addr]);
        UdpAction::Send(InternalUdpMsg::SENDPACKAGE(
            HanUdpMessage { connection_id: uuid_as_bytes(user_id), msg: Some(Msg::PingPacket(PingPacket {})) },
            to,
        ))
    } else {
        proof {
            if exists|k: int| 0 <= k < old_v.clients.len() && old_v.clients[k].0 == user_id {
                let k = choose|k: int| 0 <= k < old_v.clients.len() && old_v.clients[k].0 == user_id;
                assert(state.clients@[k].0 == user_id);
            }
        }
        UdpAction::Nothing
    }
}

/// An audio frame of client `user_id`: it goes to the other users of the
/// first channel the client is in that have a voice address; `None` when
/// the client is in no channel.
pub fn handle_audio_frame(state: &ServerState, user_id: u128) -> (res: Option<Vec<PeerAddr>>)
    requires
        state@.wf(),
    ensures
        match first_channel_with(state@.channels, user_id) {
            Some(k) => res matches Some(t) && t@ == audio_targets(state@.channels[k].1.users, user_id, state@.clients),
            None => res is None,
        },
{
    match find_channel_with(&state.channels, user_id) {
        Some(k) => Some(collect_targets(state, &state.channels[k].1.users, user_id)),
        None => None,
    }
}

/// A voice packet arrived from `addr`: audio frames are forwarded, pings
/// answered, anything else dropped. The connection identifier must be
/// sixteen bytes.
pub fn process_udp_message(addr: &PeerAddr, state: &mut ServerState, message: &HanUdpMessage) -> (res: UdpAction)
    requires
        old(state)@.wf(),
        message.connection_id@.len() == 16,
    ensures
        final(state)@.wf(),
        ({
            let user_id = choose|v: u128| uuid_bytes(v) == message.connection_id@;
            match message.msg {
                Some(Msg::AudioFrame(_)) => {
                    &&& final(state)@ == old(state)@
                    &&& match first_channel_with(old(state)@.channels, user_id) {
                        Some(k) => res matches UdpAction::Forward(t)
                            && t@ == audio_targets(old(state)@.channels[k].1.users, user_id, old(state)@.clients),
                        None => res == UdpAction::Nothing,
                    }
                },
                Some(Msg::PingPacket(_)) => match key_pos(old(state)@.clients, user_id) {
                    Some(i) => final(state)@.clients == old(state)@.clients.update(
                        i,
                        (user_id, ClientView { udp_socket: Some(*addr), ..old(state)@.clients[i].1 }),
                    ) && final(state)@.channels == old(state)@.channels
                        && (res matches UdpAction::Send(InternalUdpMsg::SENDPACKAGE(p, to))
                        && p.connection_id@ == message.connection_id@
                        && p.msg == Some(Msg::PingPacket(PingPacket {})) && to@ == seq![*addr]),
                    None => final(state)@ == old(state)@ && res == UdpAction::Nothing,
                },
                None => final(state)@ == old(state)@ && res == UdpAction::Nothing,
            }
        }),
{
    let user_id = match uuid_from_slice(message.connection_id.as_slice()) {
        Some(u) => u,
        None => 0,
    };
    proof {
        let w = choose|v: u128| uuid_bytes(v) == message.connection_id@;
        crate::ids::lemma_uuid_bytes_injective(w, user_id);
    }
    match &message.msg {
        Some(Msg::AudioFrame(_)) => match handle_audio_frame(state, user_id) {
            Some(t) => UdpAction::Forward(t),
            None => UdpAction::Nothing,
        },
        Some(Msg::PingPacket(_)) => handle_ping(addr, state, user_id),
        None => UdpAction::Nothing,
    }
}

impl UdpMessageParser {
    /// Checks the header of a datagram of at least ten bytes: the message
    /// is taken to follow it when the header carries the magic number and
    /// the number of the bytes that follow; otherwise the datagram is refused
    /// ("Header Missing").
    pub fn decode_frame(&mut self, src: &[u8]) -> (res: Result<StreamHeader, Error>)
        requires
            src@.len() >= 10,
        ensures
            match decode_header_spec(src@.subrange(0, 10)) {
                None => res == Err::<StreamHeader, Error>(Error::ProtobufError(DecodeError)),
                Some((m, l)) => if m != MAGIC || l != src@.len() - 10 {
                    res matches Err(Error::ProtocolError(e)) && e@ == "Header Missing"@
                } else {
                    res == Ok::<StreamHeader, Error>(StreamHeader { magic: m, length: l })
                },
            },
    {
        let head = vstd::slice::slice_subrange(src, 0, 10);
        let (magic, length) = match decode_header(head) {
            Ok(h) => h,
            Err(e) => return Err(Error::ProtobufError(e)),
        };
        if magic != MAGIC || (length as u64) != (src.len() as u64) - 10 {
            return Err(protocol_error("Header Missing"));
        }
        Ok(StreamHeader { magic, length })
    }

    /// Appends the header of a packet whose encoding is `body_len` bytes
    /// long; the length field holds `body_len` cut to 32 bits.
    pub fn encode_header(&mut self, body_len: usize, dst: &mut Vec<u8>)
        ensures
            final(dst)@ == old(dst)@ + header_bytes(MAGIC, body_len as u32),
    {
        encode_header(MAGIC, #[verifier::truncate] (body_len as u32), dst);
    }
}

} // verus!
