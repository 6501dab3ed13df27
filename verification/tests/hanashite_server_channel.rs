use hanashite::hanashite_server::error::Error;
use hanashite::hanashite_server::server::channel::{JoinStatus, PartStatus};
use hanashite::hanashite_server::server::{Channel, Connection, ConnectionState, ServerStruct};

struct TestData {
    server: ServerStruct,
    connections: Vec<u128>,
}

fn connection(state: ConnectionState, user_id: u32, name: &str) -> Connection {
    Connection { state, user_id, name: name.to_string(), peer_addr: "127.0.0.1:420".to_string() }
}

fn channel(name: &str, audio: bool, members: Vec<u128>) -> Channel {
    Channel { name: name.to_string(), audio, connections: members.clone(), audio_connections: members }
}

/// Three connections (connected, authenticated, challenged) and three
/// channels: `testchannel1` carries voice and is empty, `testchannel2`
/// carries voice and holds the first connection as a talker,
/// `testchannel3` carries no voice.
fn setup_test() -> TestData {
    let mut server = ServerStruct::init(hanashite::hanashite_server::configuration::default());
    let ids: Vec<u128> = (0..3).map(|_| uuid::Uuid::new_v4().as_u128()).collect();
    server.connections.push((ids[0], connection(ConnectionState::Connected, 0, "\n            ")));
    server.connections.push((ids[1], connection(ConnectionState::Authenticated, 1, "testuser2")));
    server.connections.push((ids[2], connection(ConnectionState::Challenged(vec![0u8; 16]), 1, "testuser2")));
    server.channels.push(channel("testchannel1", true, vec![]));
    server.channels.push(channel("testchannel2", true, vec![ids[0]]));
    server.channels.push(channel("testchannel3", false, vec![]));
    TestData { server, connections: ids }
}

fn get<'a>(server: &'a ServerStruct, name: &str) -> &'a Channel {
    server.channels.iter().find(|c| c.name == name).unwrap()
}

#[test]
fn test_channel_join() {
    let mut data = setup_test();
    let result = data.server.channel_join_request(data.connections[0], &"testchannel1".to_string(), true).unwrap();
    match result {
        JoinStatus::Joined(old_channels) => {
            assert_eq!(vec!["testchannel2".to_string()], old_channels);
            let con = get(&data.server, "testchannel1");
            assert!(con.connections.contains(&data.connections[0]));
            let con2 = get(&data.server, "testchannel2");
            assert!(con2.connections.contains(&data.connections[0]));
            assert!(!con2.audio_connections.contains(&data.connections[0]));
        },
        _ => panic!("not joined"),
    }
}

#[test]
fn test_channel_no_audio() {
    let mut data = setup_test();
    let result = data.server.channel_join_request(data.connections[0], &"testchannel3".to_string(), true).unwrap();
    assert!(matches!(result, JoinStatus::PermissionDenied));
}

#[test]
fn test_channel_no_audio_ok() {
    let mut data = setup_test();
    let result = data.server.channel_join_request(data.connections[0], &"testchannel3".to_string(), false).unwrap();
    assert!(matches!(result, JoinStatus::Joined(_)));
}

#[test]
fn test_channel_join_doesnotexist() {
    let mut data = setup_test();
    let result = data.server.channel_join_request(data.connections[0], &"testchannel4".to_string(), true).unwrap();
    assert!(matches!(result, JoinStatus::NotFound));
}

#[test]
fn test_channel_part_doesnotexist() {
    let mut data = setup_test();
    let result = data.server.channel_part_request(data.connections[0], &"testchannel4".to_string()).unwrap();
    assert!(matches!(result, PartStatus::NotFound));
}

#[test]
fn test_channel_part_notjoined() {
    let mut data = setup_test();
    let result = data.server.channel_part_request(data.connections[0], &"testchannel1".to_string()).unwrap();
    assert!(matches!(result, PartStatus::NotJoined));
}

#[test]
fn test_channel_part_ok() {
    let mut data = setup_test();
    let result = data.server.channel_part_request(data.connections[0], &"testchannel2".to_string()).unwrap();
    assert!(matches!(result, PartStatus::Parted));
    let con = get(&data.server, "testchannel2");
    assert!(!con.connections.contains(&data.connections[0]));
    assert!(!con.audio_connections.contains(&data.connections[0]));
}

#[test]
fn join_to_talk_talks_in_one_channel_only() {
    let mut data = setup_test();
    let me = data.connections[0];
    data.server.channel_join_request(me, &"testchannel1".to_string(), true).unwrap();
    let talking: Vec<&str> = data
        .server
        .channels
        .iter()
        .filter(|c| c.audio_connections.contains(&me))
        .map(|c| c.name.as_str())
        .collect();
    assert_eq!(vec!["testchannel1"], talking);
}

#[test]
fn join_without_talking_then_part_restores_channels() {
    let mut data = setup_test();
    let me = data.connections[0];
    let before = data.server.channels.clone();
    data.server.channel_join_request(me, &"testchannel3".to_string(), false).unwrap();
    assert!(get(&data.server, "testchannel3").connections.contains(&me));
    data.server.channel_part_request(me, &"testchannel3".to_string()).unwrap();
    assert_eq!(before, data.server.channels);
}

#[test]
fn join_without_talking_lists_no_channel() {
    let mut data = setup_test();
    let result = data.server.channel_join_request(data.connections[0], &"testchannel1".to_string(), false).unwrap();
    assert_eq!(JoinStatus::Joined(vec![]), result);
    assert!(get(&data.server, "testchannel2").audio_connections.contains(&data.connections[0]));
}

#[test]
fn join_by_inactive_connection_is_refused() {
    let mut data = setup_test();
    let err = data.server.channel_join_request(data.connections[1], &"testchannel1".to_string(), true).unwrap_err();
    assert_eq!(Error::ProtocolError("Connection not active.".to_string()), err);
    let err = data.server.channel_join_request(42, &"testchannel1".to_string(), true).unwrap_err();
    assert_eq!(Error::InternalError("Illegal Connection used.".to_string()), err);
}

#[test]
fn new_and_terminated_connections() {
    let mut data = setup_test();
    let id = data.server.new_connection(&"10.0.0.1:5000".to_string());
    let con = &data.server.connections.iter().find(|(k, _)| *k == id).unwrap().1;
    assert_eq!(ConnectionState::Connected, con.state);
    assert_eq!("10.0.0.1:5000", con.peer_addr);
    assert!(data.server.terminate_connection(id));
    assert!(!data.server.connections.iter().any(|(k, _)| *k == id));
    assert!(!data.server.terminate_connection(id));
}
