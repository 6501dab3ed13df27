use hanashite::hanashite_server::error::Error;
use hanashite::hanashite_message::protos::to_data;
use hanashite::net::PeerAddr;
use hanashite::rust_hanashite::protos::hanmessage::han_message::Msg;
use hanashite::rust_hanashite::protos::hanmessage::{Auth, ChannelCreate, ChannelDelete, HanMessage};
use hanashite::rust_hanashite::server::tcp::ClientConnection;
use hanashite::rust_hanashite::server::{Channel, Connection, Role, Server};

struct TestData {
    user_id: [u128; 3],
    channel_id: [u128; 2],
    server: Server,
}

fn fresh_id() -> u128 {
    uuid::Uuid::new_v4().as_u128()
}

fn setup_test_data() -> TestData {
    let user_id = [fresh_id(), fresh_id(), fresh_id()];
    let channel_id = [fresh_id(), fresh_id()];
    let names = ["testuser1", "testuser2", ""];
    let mut server = Server::init(hanashite::hanashite_server::configuration::default());
    server.channels.push(Channel {
        channel_name: "testchannel1".to_string(),
        channel_id: channel_id[0],
        connections: user_id.to_vec(),
        private: false,
        silent: false,
    });
    server.channels.push(Channel {
        channel_name: "testchannel2".to_string(),
        channel_id: channel_id[1],
        connections: vec![],
        private: false,
        silent: false,
    });
    for i in 0..3 {
        server.connections.push((
            user_id[i],
            Connection {
                user_name: names[i].to_string(),
                connection_id: user_id[i],
                roles: vec![if i < 2 { Role::User } else { Role::PreAuth }],
                public_key: None,
                addr: PeerAddr { ip: 0x7f000001, is_v6: false, port: (i + 1) as u16 },
            },
        ));
    }
    TestData { user_id, channel_id, server }
}

fn client_connection(user: usize, test_data: &TestData) -> ClientConnection {
    ClientConnection { connection_id: test_data.user_id[user] }
}

fn conn(test_data: &TestData, user: usize) -> &Connection {
    &test_data.server.connections.iter().find(|(k, _)| *k == test_data.user_id[user]).unwrap().1
}

#[test]
fn test_auth_succ() {
    let mut test_data = setup_test_data();
    let user_con = client_connection(2, &test_data);
    let msg_id = Some(fresh_id());
    let answer = user_con.handle_auth(&mut test_data.server, &msg_id, &Auth { username: "testuser3".to_string() }).unwrap();
    if let Some(Msg::AuthResult(result)) = answer.msg {
        assert!(result.success);
        assert_eq!(to_data(&test_data.user_id[2]), result.connection_id)
    } else {
        assert!(false, "Wrong Message");
    }
    let c = conn(&test_data, 2);
    assert_eq!("testuser3".to_string(), c.user_name);
    assert!(c.roles.contains(&Role::User));
    assert_eq!(false, c.roles.contains(&Role::PreAuth));
}

#[test]
fn test_auth_alread_loggedin() {
    let mut test_data = setup_test_data();
    let user_con = client_connection(0, &test_data);
    let msg_id = Some(fresh_id());
    user_con.handle_auth(&mut test_data.server, &msg_id, &Auth { username: "testuser1".to_string() }).unwrap_err();
    let c = conn(&test_data, 0);
    assert_eq!("testuser1".to_string(), c.user_name);
    assert!(c.roles.contains(&Role::User));
    assert_eq!(false, c.roles.contains(&Role::PreAuth));
}

#[test]
fn test_auth_fail() {
    let mut test_data = setup_test_data();
    let user_con = client_connection(2, &test_data);
    let msg_id = Some(fresh_id());
    let answer = user_con.handle_auth(&mut test_data.server, &msg_id, &Auth { username: "testuser1".to_string() }).unwrap();
    if let Some(Msg::AuthResult(result)) = answer.msg {
        assert_eq!(false, result.success);
        assert_eq!(to_data(&test_data.user_id[2]), result.connection_id)
    } else {
        assert!(false, "Wrong Message");
    }
    let c = conn(&test_data, 2);
    assert_eq!("".to_string(), c.user_name);
    assert!(c.roles.contains(&Role::PreAuth));
    assert_eq!(false, c.roles.contains(&Role::User));
}

#[test]
fn handler_test_chan_crea_succ() {
    let mut test_data = setup_test_data();
    let user_con = client_connection(0, &test_data);
    let msg_id = Some(fresh_id());
    let answer = user_con
        .handle_chan_crea(&mut test_data.server, &msg_id, &ChannelCreate { name: "testchannel3".to_string() })
        .unwrap();
    if let Some(Msg::ChanCreaResult(result)) = answer.msg {
        assert!(result.success);
        assert_eq!(16, result.channel_id.len());
        assert_eq!("testchannel3", result.name);
    } else {
        assert!(false, "Wrong Message");
    }
    let chan = test_data.server.channels.iter().find(|c| c.channel_name == "testchannel3").unwrap();
    assert_eq!("testchannel3".to_string(), chan.channel_name);
}

#[test]
fn handler_test_chan_crea_fail() {
    let mut test_data = setup_test_data();
    let user_con = client_connection(0, &test_data);
    let msg_id = Some(fresh_id());
    let answer = user_con
        .handle_chan_crea(&mut test_data.server, &msg_id, &ChannelCreate { name: "testchannel1".to_string() })
        .unwrap();
    if let Some(Msg::ChanCreaResult(result)) = answer.msg {
        assert_eq!(false, result.success);
        assert_eq!(to_data(&test_data.channel_id[0]), result.channel_id);
        assert_eq!("testchannel1", result.name);
    } else {
        assert!(false, "Wrong Message");
    }
}

#[test]
fn handler_test_chan_del_succ() {
    let mut test_data = setup_test_data();
    let user_con = client_connection(0, &test_data);
    let msg_id = Some(fresh_id());
    let answer = user_con
        .handle_chan_del(&mut test_data.server, &msg_id, &ChannelDelete { name: "testchannel1".to_string() })
        .unwrap();
    if let Some(Msg::ChanDelResult(result)) = answer.msg {
        assert!(result.success);
        assert_eq!(to_data(&test_data.channel_id[0]), result.channel_id);
        assert_eq!("testchannel1", result.name);
    } else {
        assert!(false, "Wrong Message");
    }
    assert!(test_data.server.channels.iter().find(|c| c.channel_name == "testchannel1").is_none());
}

#[test]
fn handler_test_chan_del_fail() {
    let mut test_data = setup_test_data();
    let user_con = client_connection(0, &test_data);
    let msg_id = Some(fresh_id());
    let answer = user_con
        .handle_chan_del(&mut test_data.server, &msg_id, &ChannelDelete { name: "testchannel4".to_string() })
        .unwrap();
    if let Some(Msg::ChanDelResult(result)) = answer.msg {
        assert_eq!(false, result.success);
        assert_eq!(0, result.channel_id.len());
        assert_eq!("testchannel4", result.name);
    } else {
        assert!(false, "Wrong Message");
    }
}

#[test]
fn channel_actions_before_login_are_denied() {
    let mut test_data = setup_test_data();
    let user_con = client_connection(2, &test_data);
    let err = user_con
        .handle_chan_crea(&mut test_data.server, &None, &ChannelCreate { name: "x".to_string() })
        .unwrap_err();
    assert_eq!(Error::PermissionDenied, err);
    let err = user_con
        .handle_chan_del(&mut test_data.server, &None, &ChannelDelete { name: "testchannel1".to_string() })
        .unwrap_err();
    assert_eq!(Error::PermissionDenied, err);
    assert_eq!(2, test_data.server.channels.len());
}

#[test]
fn login_then_create_then_delete_restores_channels() {
    let mut test_data = setup_test_data();
    let user_con = client_connection(2, &test_data);
    user_con.handle_auth(&mut test_data.server, &None, &Auth { username: "fresh".to_string() }).unwrap();
    let before = test_data.server.channels.clone();
    user_con.handle_chan_crea(&mut test_data.server, &None, &ChannelCreate { name: "brand-new".to_string() }).unwrap();
    assert_eq!(3, test_data.server.channels.len());
    user_con.handle_chan_del(&mut test_data.server, &None, &ChannelDelete { name: "brand-new".to_string() }).unwrap();
    assert_eq!(before, test_data.server.channels);
}

#[test]
fn process_message_dispatches() {
    let mut test_data = setup_test_data();
    let user_con = client_connection(0, &test_data);
    let id = fresh_id();
    let msg = HanMessage {
        message_id: to_data(&id),
        msg: Some(Msg::ChanCrea(ChannelCreate { name: "other".to_string() })),
    };
    let answer = user_con.process_message(&mut test_data.server, &msg).unwrap();
    assert_eq!(to_data(&id), answer.message_id);
    assert!(matches!(answer.msg, Some(Msg::ChanCreaResult(ref r)) if r.success));
}

#[test]
fn registered_connection_can_log_in_once() {
    let mut test_data = setup_test_data();
    let id = fresh_id();
    test_data.server.new_connection(id, PeerAddr { ip: 1, is_v6: true, port: 9 });
    let c = &test_data.server.connections.iter().find(|(k, _)| *k == id).unwrap().1;
    assert_eq!(vec![Role::PreAuth], c.roles);
    assert_eq!("", c.user_name);
    assert_eq!(None, c.public_key);
    let user_con = ClientConnection { connection_id: id };
    user_con.handle_auth(&mut test_data.server, &None, &Auth { username: "newbie".to_string() }).unwrap();
    assert_eq!(
        Error::PermissionDenied,
        user_con.handle_auth(&mut test_data.server, &None, &Auth { username: "again".to_string() }).unwrap_err()
    );
}
