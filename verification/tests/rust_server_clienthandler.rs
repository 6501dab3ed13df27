use hanashite::rust_hanashite::protos::hanmessage::han_message::Msg;
use hanashite::rust_hanashite::protos::hanmessage::{
    Auth, ChannelCreate, ChannelDelete, ChannelJoin, ChannelList, ChannelPart, ChannelStatus, HanMessage, Status,
    StreamHeader,
};
use hanashite::rust_server::clienthandler::{
    handle_auth, handle_chan_crea, handle_chan_del, handle_chan_join, handle_chan_lst, handle_chan_part,
    handle_chan_status, handle_status, multiplex, ClientHandle, ClientState,
};
use hanashite::rust_server::controlserver::{ChannelState, ServerState};
use hanashite::rust_server::util::Error;
use std::collections::HashSet;
use uuid::Uuid;

struct TestSetup {
    uuid1: u128,
    uuid2: u128,
    uuid3: u128,
    server: ServerState,
}

fn client(state: ClientState, uuid: u128, name: &str) -> ClientHandle {
    ClientHandle { client_state: state, uuid, username: name.to_string(), udp_socket: None }
}

fn setup_server() -> TestSetup {
    let uuid1 = Uuid::from_slice(&[1; 16][..]).unwrap().as_u128();
    let uuid2 = Uuid::from_slice(&[2; 16][..]).unwrap().as_u128();
    let uuid3 = Uuid::from_slice(&[3; 16][..]).unwrap().as_u128();
    let mut server = ServerState { channels: vec![], clients: vec![] };
    server.channels.push((uuid1, ChannelState { name: "testchannel1".to_string(), users: vec![] }));
    server.channels.push((uuid2, ChannelState { name: "testchannel2".to_string(), users: vec![uuid1, uuid2] }));
    server.clients.push((uuid1, client(ClientState::LOGGEDIN, uuid1, "testuser1")));
    server.clients.push((uuid2, client(ClientState::LOGGEDIN, uuid2, "testuser2")));
    server.clients.push((uuid3, client(ClientState::CONNECTED, uuid3, "")));
    TestSetup { uuid1, uuid2, uuid3, server }
}

fn id_of(bytes: &[u8]) -> u128 {
    Uuid::from_slice(bytes).unwrap().as_u128()
}

fn channel<'a>(server: &'a ServerState, id: u128) -> &'a ChannelState {
    &server.channels.iter().find(|(k, _)| *k == id).unwrap().1
}

fn client_of<'a>(server: &'a ServerState, id: u128) -> &'a ClientHandle {
    &server.clients.iter().find(|(k, _)| *k == id).unwrap().1
}

#[test]
fn clienthandler_test_auth() {
    let mut t = setup_server();
    let msg = handle_auth(&mut t.server, t.uuid3, t.uuid1, &Auth { username: "testuser3".to_string() }).unwrap();
    if let Some(Msg::AuthResult(r)) = msg.msg {
        assert_eq!(true, r.success);
        assert_eq!(t.uuid3, id_of(&r.connection_id[..]));
    } else {
        assert!(false, "Wrong Message !");
    }
    let c = client_of(&t.server, t.uuid3);
    assert_eq!(ClientState::LOGGEDIN, c.client_state);
    assert_eq!("testuser3", c.username);
}

#[test]
fn clienthandler_test_chan_crea_succ() {
    let mut t = setup_server();
    let msg = handle_chan_crea(&mut t.server, t.uuid1, t.uuid1, &ChannelCreate { name: "testchannel3".to_string() }).unwrap();
    if let Some(Msg::ChanCreaResult(r)) = msg.msg {
        assert!(r.success);
        assert_eq!("testchannel3".to_string(), r.name);
        assert!(r.channel_id.len() == 16);
    } else {
        assert!(false, "Wrong Message !");
    }
}

#[test]
fn clienthandler_test_chan_crea_fail() {
    let mut t = setup_server();
    let msg = handle_chan_crea(&mut t.server, t.uuid1, t.uuid1, &ChannelCreate { name: "testchannel1".to_string() }).unwrap();
    if let Some(Msg::ChanCreaResult(r)) = msg.msg {
        assert_eq!(false, r.success);
        assert_eq!("testchannel1".to_string(), r.name);
        assert_eq!(t.uuid1, id_of(&r.channel_id[..]));
    } else {
        assert!(false, "Wrong Message !");
    }
}

#[test]
fn clienthandler_test_chan_del_succ() {
    let mut t = setup_server();
    let msg = handle_chan_del(&mut t.server, t.uuid1, t.uuid1, &ChannelDelete { name: "testchannel2".to_string() }).unwrap();
    if let Some(Msg::ChanDelResult(r)) = msg.msg {
        assert_eq!(true, r.success);
        assert_eq!("testchannel2".to_string(), r.name);
        assert_eq!(t.uuid2, id_of(&r.channel_id[..]));
    } else {
        assert!(false, "Wrong Message !");
    }
    assert_eq!(1, t.server.channels.len());
}

#[test]
fn clienthandler_test_chan_del_fail() {
    let mut t = setup_server();
    let msg = handle_chan_del(&mut t.server, t.uuid1, t.uuid1, &ChannelDelete { name: "testchannel99".to_string() }).unwrap();
    if let Some(Msg::ChanDelResult(r)) = msg.msg {
        assert_eq!(false, r.success);
        assert_eq!("testchannel99".to_string(), r.name);
        assert_eq!(&Vec::<u8>::new(), &r.channel_id);
    } else {
        assert!(false, "Wrong Message !");
    }
    assert_eq!(2, t.server.channels.len());
}

#[test]
fn test_chan_join_succ() {
    let mut t = setup_server();
    let msg = handle_chan_join(&mut t.server, t.uuid1, t.uuid1, &ChannelJoin { name: "testchannel1".to_string() }).unwrap();
    if let Some(Msg::ChanJoinResult(r)) = msg.msg {
        assert_eq!(true, r.success);
        assert_eq!(t.uuid1, id_of(&r.channel_id[..]));
    } else {
        assert!(false, "Wrong Message !");
    }
    assert!(channel(&t.server, t.uuid1).users.contains(&t.uuid1));
    assert_eq!(false, channel(&t.server, t.uuid2).users.contains(&t.uuid1));
}

#[test]
fn test_chan_join_fail() {
    let mut t = setup_server();
    let msg = handle_chan_join(&mut t.server, t.uuid1, t.uuid1, &ChannelJoin { name: "testchannel99".to_string() }).unwrap();
    if let Some(Msg::ChanJoinResult(r)) = msg.msg {
        assert_eq!(false, r.success);
        assert_eq!(&Vec::<u8>::new(), &r.channel_id);
    } else {
        assert!(false, "Wrong Message !");
    }
    assert_eq!(false, channel(&t.server, t.uuid2).users.contains(&t.uuid1));
}

#[test]
fn test_chan_part_succ() {
    let mut t = setup_server();
    let msg = handle_chan_part(&mut t.server, t.uuid1, t.uuid1, &ChannelPart {}).unwrap();
    if let Some(Msg::ChanPartResult(r)) = msg.msg {
        assert_eq!(true, r.success);
        assert_eq!(t.uuid2, id_of(&r.channel_id[..]));
        assert_eq!(&"testchannel2".to_string(), &r.name);
    } else {
        assert!(false, "Wrong Message !");
    }
    assert_eq!(false, channel(&t.server, t.uuid2).users.contains(&t.uuid1));
    assert_eq!(false, channel(&t.server, t.uuid1).users.contains(&t.uuid1));
}

#[test]
fn test_chan_part_fail() {
    let mut t = setup_server();
    let msg = handle_chan_part(&mut t.server, t.uuid3, t.uuid1, &ChannelPart {}).unwrap();
    if let Some(Msg::ChanPartResult(r)) = msg.msg {
        assert_eq!(false, r.success);
        assert_eq!(Vec::<u8>::new(), &r.channel_id[..]);
        assert_eq!(&"".to_string(), &r.name);
    } else {
        assert!(false, "Wrong Message !");
    }
}

#[test]
fn test_chan_lst() {
    let t = setup_server();
    let msg = handle_chan_lst(&t.server, t.uuid1, t.uuid1, &ChannelList {}).unwrap();
    if let Some(Msg::ChanLstResult(r)) = msg.msg {
        let channels: HashSet<String> = r.channel.iter().map(|e| e.name.clone()).collect();
        let expected: HashSet<String> =
            ["testchannel2".to_string(), "testchannel1".to_string()].iter().map(|e| e.clone()).collect();
        assert_eq!(&expected, &channels);
    } else {
        assert!(false, "Wrong Message !");
    }
}

#[test]
fn test_chan_status() {
    let t = setup_server();
    let msg = handle_chan_status(&t.server, t.uuid1, t.uuid1, &ChannelStatus { name: "testchannel2".to_string() }).unwrap();
    if let Some(Msg::ChanStatusResult(r)) = msg.msg {
        assert_eq!(&"testchannel2".to_string(), &r.name);
        let users: HashSet<String> = r.user.iter().map(|e| e.name.clone()).collect();
        let expected: HashSet<String> =
            ["testuser1".to_string(), "testuser2".to_string()].iter().map(|e| e.clone()).collect();
        assert_eq!(&expected, &users);
    } else {
        assert!(false, "Wrong Message !");
    }
}

#[test]
fn test_status() {
    let t = setup_server();
    let msg = handle_status(&t.server, t.uuid1, t.uuid1, &Status {}).unwrap();
    let client = client_of(&t.server, t.uuid1);
    if let Some(Msg::StatusResult(r)) = msg.msg {
        assert_eq!(t.uuid1, id_of(&r.connection_id[..]));
        assert_eq!(&client.username, &r.name);
        assert_eq!(&"testchannel2".to_string(), &r.channel);
    } else {
        assert!(false, "Wrong Message !");
    }
}

#[test]
fn testheader() {
    let header = StreamHeader { magic: 0x00008A71, length: 12345 };
    println!("Header size: {}", header.encoded_len());
}

#[test]
fn stream_header_takes_ten_bytes() {
    assert_eq!(10, StreamHeader { magic: 0x00008A71, length: 12345 }.encoded_len());
    assert_eq!(5, StreamHeader { magic: 0x00008A71, length: 0 }.encoded_len());
    assert_eq!(0, StreamHeader { magic: 0, length: 0 }.encoded_len());
}

#[test]
fn second_login_is_refused() {
    let mut t = setup_server();
    let err = handle_auth(&mut t.server, t.uuid1, t.uuid1, &Auth { username: "again".to_string() }).unwrap_err();
    assert_eq!(Error::ProtocolError("Relogin after login !".to_string()), err);
    assert_eq!("testuser1", client_of(&t.server, t.uuid1).username);
}

#[test]
fn join_before_login_is_refused() {
    let mut t = setup_server();
    let err = handle_chan_join(&mut t.server, t.uuid3, t.uuid1, &ChannelJoin { name: "testchannel1".to_string() }).unwrap_err();
    assert_eq!(Error::ProtocolError("Not Logged in".to_string()), err);
}

#[test]
fn join_then_part_leaves_no_channel() {
    let mut t = setup_server();
    handle_chan_join(&mut t.server, t.uuid2, t.uuid1, &ChannelJoin { name: "testchannel1".to_string() }).unwrap();
    let msg = handle_chan_part(&mut t.server, t.uuid2, t.uuid1, &ChannelPart {}).unwrap();
    match msg.msg {
        Some(Msg::ChanPartResult(r)) => {
            assert!(r.success);
            assert_eq!("testchannel1", r.name);
        },
        _ => panic!("Wrong Message !"),
    }
    assert!(t.server.channels.iter().all(|(_, c)| !c.users.contains(&t.uuid2)));
}

#[test]
fn create_then_delete_restores_channels() {
    let mut t = setup_server();
    let before: Vec<(u128, String, Vec<u128>)> =
        t.server.channels.iter().map(|(k, c)| (*k, c.name.clone(), c.users.clone())).collect();
    handle_chan_crea(&mut t.server, t.uuid1, t.uuid1, &ChannelCreate { name: "fresh".to_string() }).unwrap();
    assert_eq!(3, t.server.channels.len());
    handle_chan_del(&mut t.server, t.uuid1, t.uuid1, &ChannelDelete { name: "fresh".to_string() }).unwrap();
    let after: Vec<(u128, String, Vec<u128>)> =
        t.server.channels.iter().map(|(k, c)| (*k, c.name.clone(), c.users.clone())).collect();
    assert_eq!(before, after);
}

#[test]
fn multiplex_dispatches_and_answers_message_id() {
    let mut t = setup_server();
    let id = Uuid::from_slice(&[9; 16][..]).unwrap();
    let request = HanMessage { message_id: id.as_bytes().to_vec(), msg: Some(Msg::Status(Status {})) };
    let answer = multiplex(&mut t.server, t.uuid1, &request).unwrap();
    assert_eq!(id.as_bytes().to_vec(), answer.message_id);
    assert!(matches!(answer.msg, Some(Msg::StatusResult(_))));
}

#[test]
fn new_state_holds_one_empty_channel() {
    let s = ServerState::new();
    assert_eq!(1, s.channels.len());
    assert_eq!("testchannel", s.channels[0].1.name);
    assert!(s.channels[0].1.users.is_empty());
    assert!(s.clients.is_empty());
}

#[test]
fn multiplex_refuses_bad_ids_and_answers() {
    let mut t = setup_server();
    let request = HanMessage { message_id: vec![1, 2, 3], msg: Some(Msg::Status(Status {})) };
    assert_eq!(Error::ProtocolError("Illegal UUID".to_string()), multiplex(&mut t.server, t.uuid1, &request).unwrap_err());
    let request = HanMessage { message_id: vec![7; 16], msg: None };
    assert_eq!(Error::ProtocolError("Illegal Message".to_string()), multiplex(&mut t.server, t.uuid1, &request).unwrap_err());
}

#[test]
fn connect_registers_a_fresh_client_and_disconnect_forgets_it() {
    let mut t = setup_server();
    t.server.connect_client(77);
    let c = client_of(&t.server, 77);
    assert_eq!(ClientState::CONNECTED, c.client_state);
    assert_eq!("", c.username);
    assert_eq!(None, c.udp_socket);
    assert_eq!(4, t.server.clients.len());
    t.server.disconnect_client(77);
    assert_eq!(3, t.server.clients.len());
    assert_eq!(vec![t.uuid1, t.uuid2], channel(&t.server, t.uuid2).users);
}
