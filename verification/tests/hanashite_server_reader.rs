use hanashite::hanashite_message::protos::hanmessage::auth_response::ResultState;
use hanashite::hanashite_message::protos::hanmessage::han_message::Msg;
use hanashite::hanashite_message::protos::hanmessage::{Auth, ChallengeResponse, HanMessage, VoiceChannelJoin};
use hanashite::hanashite_message::protos::to_data;
use hanashite::hanashite_server::error::Error;
use hanashite::hanashite_server::server::{Connection, ConnectionState, ServerStruct};
use hanashite::hanashite_server::tcp::reader::Reader;
use sodiumoxide::crypto::sign;

fn setup() -> (ServerStruct, u128) {
    sodiumoxide::init().unwrap();
    let mut server = ServerStruct::init(hanashite::hanashite_server::configuration::default());
    let id = uuid::Uuid::new_v4().as_u128();
    server.connections.push((id, Connection {
        state: ConnectionState::Connected,
        user_id: 0,
        name: String::new(),
        peer_addr: "127.0.0.1:1".to_string(),
    }));
    (server, id)
}

#[test]
fn reader_auth_with_broken_key() {
    let (mut server, id) = setup();
    let reader = Reader::new(&id);
    let answer = reader.handle_auth(&mut server, &None, &Auth { username: "name".to_string(), public_key: vec![] }).unwrap();
    match answer.msg {
        Some(Msg::AuthResponse(data)) => {
            assert_eq!(ResultState::BrokenKey.number(), data.result);
            assert_eq!("Illegal Public Key", data.message);
        },
        _ => panic!("wrong answer"),
    }
    assert_eq!(ConnectionState::Connected, server.connections[0].1.state);
}

#[test]
fn reader_handshake() {
    let (mut server, id) = setup();
    let reader = Reader::new(&id);
    let (pk, sk) = sign::gen_keypair();
    let message_id = uuid::Uuid::new_v4().as_u128();
    let answer = reader
        .handle_auth(&mut server, &Some(message_id), &Auth { username: "name".to_string(), public_key: pk.0.to_vec() })
        .unwrap();
    assert_eq!(to_data(&message_id), answer.message_id);
    let challenge = match answer.msg {
        Some(Msg::Challenge(c)) => c.chellange,
        _ => panic!("wrong answer"),
    };
    assert_eq!(16, challenge.len());
    assert_eq!(ConnectionState::Challenged(challenge.clone()), server.connections[0].1.state);
    let signature = sign::sign_detached(&challenge, &sk).to_bytes().to_vec();
    let answer = reader.handle_challenge_response(&mut server, &None, &ChallengeResponse { signature }).unwrap();
    match answer.msg {
        Some(Msg::AuthResponse(data)) => {
            assert_eq!(ResultState::Success.number(), data.result);
            assert_eq!(1, data.user_id);
            assert_eq!("", data.message);
        },
        _ => panic!("wrong answer"),
    }
    assert_eq!(ConnectionState::Authenticated, server.connections[0].1.state);
}

#[test]
fn reader_challenge_with_wrong_signature() {
    let (mut server, id) = setup();
    let reader = Reader::new(&id);
    let (pk, _) = sign::gen_keypair();
    let (_, other) = sign::gen_keypair();
    let answer = reader
        .handle_auth(&mut server, &None, &Auth { username: "name".to_string(), public_key: pk.0.to_vec() })
        .unwrap();
    let challenge = match answer.msg {
        Some(Msg::Challenge(c)) => c.chellange,
        _ => panic!("wrong answer"),
    };
    let signature = sign::sign_detached(&challenge, &other).to_bytes().to_vec();
    let err = reader.handle_challenge_response(&mut server, &None, &ChallengeResponse { signature }).unwrap_err();
    assert!(matches!(err, Error::ProtocolError(_)));
    assert_eq!(ConnectionState::Defunct, server.connections[0].1.state);
}

#[test]
fn reader_refuses_unknown_connection_and_illegal_messages() {
    let (mut server, _) = setup();
    let reader = Reader::new(&5);
    let err = reader.handle_auth(&mut server, &None, &Auth { username: "n".to_string(), public_key: vec![] }).unwrap_err();
    assert_eq!(Error::InternalError("Illegal Connection Id".to_string()), err);
    let msg = HanMessage { message_id: vec![], msg: Some(Msg::VoiceChannelJoin(VoiceChannelJoin { name: "c".to_string() })) };
    assert_eq!(
        Error::InternalError("Illegal message: Illegal Message Received".to_string()),
        reader.process_message(&mut server, &msg).unwrap_err()
    );
    let msg = HanMessage { message_id: vec![], msg: None };
    assert_eq!(
        Error::InternalError("Illegal message: Empty message".to_string()),
        reader.process_message(&mut server, &msg).unwrap_err()
    );
}
