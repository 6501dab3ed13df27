use hanashite::net::PeerAddr;
use hanashite::rust_hanashite::protos::hanmessage::StreamHeader;
use hanashite::rust_hanashite::protos::udpmessage::han_udp_message::Msg;
use hanashite::rust_hanashite::protos::udpmessage::{AudioPacket, HanUdpMessage as RelayPacket, PingPacket};
use hanashite::rust_server::clienthandler::{ClientHandle, ClientState};
use hanashite::rust_server::controlserver::{process_udp_message, send_channel_packet, ChannelState, ServerState};
use hanashite::rust_server::protos::updmessage::{AudioPacket as Frame, HanUdpMessage};
use hanashite::rust_server::udphandler::{self, parse_msg, InternalUdpMsg, UdpAction, UdpMessageParser};
use hanashite::rust_server::util::Error;

fn addr(port: u16) -> PeerAddr {
    PeerAddr { ip: 0x7f000001, is_v6: false, port }
}

fn state() -> ServerState {
    let mut s = ServerState { channels: vec![], clients: vec![] };
    s.channels.push((10, ChannelState { name: "a".to_string(), users: vec![1, 2, 3] }));
    s.channels.push((20, ChannelState { name: "b".to_string(), users: vec![4] }));
    for (id, sock) in [(1u128, Some(addr(1))), (2, Some(addr(2))), (3, None), (4, Some(addr(4)))] {
        s.clients.push((id, ClientHandle {
            username: format!("user{}", id),
            uuid: id,
            client_state: ClientState::LOGGEDIN,
            udp_socket: sock,
        }));
    }
    s
}

fn id_bytes(id: u128) -> Vec<u8> {
    id.to_be_bytes().to_vec()
}

fn frame_with_header(len_field: u32, body: &[u8]) -> Vec<u8> {
    let mut v = vec![];
    UdpMessageParser {}.encode_header(len_field as usize, &mut v);
    v.extend_from_slice(body);
    v
}

#[test]
fn audio_frame_is_forwarded_to_other_talkers_with_addresses() {
    let mut s = state();
    let msg = RelayPacket {
        connection_id: id_bytes(1),
        msg: Some(Msg::AudioFrame(AudioPacket { channel_id: vec![], sequence_id: 7, data: vec![1, 2] })),
    };
    let action = udphandler::process_udp_message(&addr(9), &mut s, &msg);
    assert_eq!(UdpAction::Forward(vec![addr(2)]), action);
}

#[test]
fn audio_frame_outside_channels_goes_nowhere() {
    let mut s = state();
    s.clients.push((5, ClientHandle { username: "x".to_string(), uuid: 5, client_state: ClientState::LOGGEDIN, udp_socket: None }));
    let msg = RelayPacket {
        connection_id: id_bytes(5),
        msg: Some(Msg::AudioFrame(AudioPacket { channel_id: vec![], sequence_id: 0, data: vec![] })),
    };
    assert_eq!(UdpAction::Nothing, udphandler::process_udp_message(&addr(9), &mut s, &msg));
}

#[test]
fn ping_registers_address_and_is_answered() {
    let mut s = state();
    let msg = RelayPacket { connection_id: id_bytes(3), msg: Some(Msg::PingPacket(PingPacket {})) };
    let action = udphandler::process_udp_message(&addr(33), &mut s, &msg);
    assert_eq!(
        UdpAction::Send(InternalUdpMsg::SENDPACKAGE(
            RelayPacket { connection_id: id_bytes(3), msg: Some(Msg::PingPacket(PingPacket {})) },
            vec![addr(33)],
        )),
        action
    );
    assert_eq!(Some(addr(33)), s.clients.iter().find(|(k, _)| *k == 3).unwrap().1.udp_socket);
}

#[test]
fn ping_from_unknown_client_does_nothing() {
    let mut s = state();
    let msg = RelayPacket { connection_id: id_bytes(99), msg: Some(Msg::PingPacket(PingPacket {})) };
    assert_eq!(UdpAction::Nothing, udphandler::process_udp_message(&addr(33), &mut s, &msg));
}

#[test]
fn datagram_framing_checks() {
    assert_eq!(Error::ProtocolError("Udp Packet to small for Header.".to_string()), parse_msg(&[0u8; 5]).unwrap_err());
    let good = frame_with_header(3, &[1, 2, 3]);
    assert_eq!(StreamHeader { magic: 0x8A71, length: 3 }, parse_msg(&good).unwrap());
    let wrong_len = frame_with_header(4, &[1, 2, 3]);
    assert_eq!(Error::ProtocolError("MAGIC is gone !".to_string()), parse_msg(&wrong_len).unwrap_err());
    assert_eq!(Error::ProtocolError("Header Missing".to_string()), UdpMessageParser {}.decode_frame(&wrong_len).unwrap_err());
    assert_eq!(StreamHeader { magic: 0x8A71, length: 3 }, UdpMessageParser {}.decode_frame(&good).unwrap());
}

#[test]
fn first_relay_registers_and_forwards_per_channel() {
    let mut s = state();
    let msg = HanUdpMessage {
        user_id: id_bytes(3),
        audio_frame: Some(Frame { channel_id: vec![], sequernce_id: 1, data: vec![9] }),
    };
    let targets = process_udp_message(&mut s, &addr(30), &msg).unwrap();
    assert_eq!(vec![vec![addr(1), addr(2)]], targets);
    assert_eq!(Some(addr(30)), s.clients.iter().find(|(k, _)| *k == 3).unwrap().1.udp_socket);
    let none = process_udp_message(&mut s, &addr(31), &HanUdpMessage { user_id: id_bytes(3), audio_frame: None });
    assert_eq!(None, none);
    assert_eq!(vec![vec![addr(2), addr(31)]], send_channel_packet(&s, 1));
}

#[test]
fn disconnect_leaves_channels_and_forgets_client() {
    let mut s = state();
    s.disconnect_client(2);
    assert!(s.channels.iter().all(|(_, c)| !c.users.contains(&2)));
    assert!(!s.clients.iter().any(|(k, _)| *k == 2));
    assert_eq!(vec![1, 3], s.channels[0].1.users);
}

#[test]
fn relay_packet_sizes() {
    let empty = HanUdpMessage::default();
    assert_eq!(0, empty.get_size());
    let frame = Frame { channel_id: vec![1; 16], sequernce_id: 300, data: vec![0; 200] };
    assert_eq!(2 + 1 + 16 + 2 + 2 + 2 + 2 + 200, frame.get_size());
    let msg = HanUdpMessage { user_id: vec![1; 16], audio_frame: Some(frame.clone()) };
    assert_eq!(2 + 1 + 16 + 2 + 2 + frame.get_size(), msg.get_size());
}
