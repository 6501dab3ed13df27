use hanashite::hanashite_server::error::Error;
use hanashite::hanashite_server::server::auth::AuthStatus;
use hanashite::hanashite_server::server::{Connection, ConnectionState, ServerStruct, User};
use rand::RngCore;
use sodiumoxide::crypto::sign;

struct TestData {
    server: ServerStruct,
    public_keys: Vec<sign::PublicKey>,
    secret_keys: Vec<sign::SecretKey>,
    connections: Vec<u128>,
    challenge: Vec<u8>,
}

fn connection(state: ConnectionState, user_id: u32, name: &str) -> Connection {
    Connection { state, user_id, name: name.to_string(), peer_addr: "127.0.0.1:420".to_string() }
}

fn setup_test() -> TestData {
    sodiumoxide::init().unwrap();
    let mut server = ServerStruct::init(hanashite::hanashite_server::configuration::default());
    let mut connections = vec![];
    let mut challenge = vec![0u8; 16];
    rand::thread_rng().fill_bytes(challenge.as_mut_slice());
    let id = uuid::Uuid::new_v4().as_u128();
    connections.push(id);
    server.connections.push((id, connection(ConnectionState::Connected, 0, "\n            ")));
    let id = uuid::Uuid::new_v4().as_u128();
    connections.push(id);
    server.connections.push((id, connection(ConnectionState::Authenticated, 1, "testuser2")));
    let id = uuid::Uuid::new_v4().as_u128();
    connections.push(id);
    server.connections.push((id, connection(ConnectionState::Challenged(challenge.clone()), 1, "testuser2")));
    server.next_user_id += 1;
    let mut public_keys = vec![];
    let mut secret_keys = vec![];
    let (pk, sk) = sign::gen_keypair();
    server.users.push(User { id: 1, public_key: pk.0.to_vec() });
    public_keys.push(pk);
    secret_keys.push(sk);
    let (pk, sk) = sign::gen_keypair();
    public_keys.push(pk);
    secret_keys.push(sk);
    TestData { server, public_keys, secret_keys, connections, challenge }
}

fn find(server: &ServerStruct, id: u128) -> &Connection {
    &server.connections.iter().find(|(k, _)| *k == id).unwrap().1
}

#[test]
fn auth_test_auth() {
    let mut data = setup_test();
    let result = data
        .server
        .auth_request(data.connections[0], &"testuser".to_string(), &data.public_keys[0].0.to_vec())
        .unwrap();
    if let AuthStatus::KeyChallenge(c) = result {
        let con = find(&data.server, data.connections[0]);
        assert!(matches!(&con.state, ConnectionState::Challenged(chall) if &c == chall));
        assert_eq!(2, data.server.next_user_id);
        assert_eq!(1, con.user_id);
    } else {
        assert!(false);
    }
}

#[test]
fn test_new_auth() {
    let mut data = setup_test();
    assert_eq!(2, data.server.next_user_id);
    let result = data
        .server
        .auth_request(data.connections[0], &"testuser".to_string(), &data.public_keys[1].0.to_vec())
        .unwrap();
    if let AuthStatus::KeyChallenge(c) = result {
        let con = find(&data.server, data.connections[0]);
        assert!(matches!(&con.state, ConnectionState::Challenged(chall) if &c == chall));
        assert_eq!(3, data.server.next_user_id);
        assert_eq!(2, con.user_id);
    } else {
        assert!(false);
    }
}

#[test]
fn test_challenge() {
    let mut data = setup_test();
    let signature = sign::sign_detached(data.challenge.as_slice(), &data.secret_keys[0]);
    let result = data
        .server
        .challenge_result_request(data.connections[2], &signature.to_bytes().to_vec())
        .unwrap();
    if let AuthStatus::Success(user_id, user_name) = result {
        assert_eq!(1, user_id);
        assert_eq!("testuser2".to_string(), user_name);
    } else {
        assert!(false);
    }
}

#[test]
fn test_faled_challenge() {
    let mut data = setup_test();
    let signature = sign::sign_detached(data.challenge.as_slice(), &data.secret_keys[1]);
    let result = data
        .server
        .challenge_result_request(data.connections[2], &signature.to_bytes().to_vec())
        .unwrap_err();
    assert!(matches!(result, Error::ProtocolError(_)));
}

#[test]
fn auth_challenge_is_sixteen_bytes_and_new_user_is_stored() {
    let mut data = setup_test();
    let key = data.public_keys[1].0.to_vec();
    let result = data.server.auth_request(data.connections[0], &"newcomer".to_string(), &key).unwrap();
    match result {
        AuthStatus::KeyChallenge(c) => assert_eq!(16, c.len()),
        _ => panic!("no challenge"),
    }
    let con = find(&data.server, data.connections[0]);
    assert_eq!("newcomer", con.name);
    assert!(data.server.users.iter().any(|u| u.id == 2 && u.public_key == key));
}

#[test]
fn auth_in_wrong_state_makes_connection_defunct() {
    let mut data = setup_test();
    let err = data
        .server
        .auth_request(data.connections[1], &"x".to_string(), &data.public_keys[0].0.to_vec())
        .unwrap_err();
    assert_eq!(Error::ProtocolError("Illegal State".to_string()), err);
    assert_eq!(ConnectionState::Defunct, find(&data.server, data.connections[1]).state);
}

#[test]
fn auth_unknown_connection_is_internal_error() {
    let mut data = setup_test();
    let err = data.server.auth_request(7, &"x".to_string(), &data.public_keys[0].0.to_vec()).unwrap_err();
    assert_eq!(Error::InternalError("Illegal Connection used.".to_string()), err);
}

#[test]
fn handshake_end_to_end() {
    let mut data = setup_test();
    let key = data.public_keys[1].0.to_vec();
    let challenge = match data.server.auth_request(data.connections[0], &"walker".to_string(), &key).unwrap() {
        AuthStatus::KeyChallenge(c) => c,
        _ => panic!("no challenge"),
    };
    let signature = sign::sign_detached(challenge.as_slice(), &data.secret_keys[1]);
    let result = data.server.challenge_result_request(data.connections[0], &signature.to_bytes().to_vec()).unwrap();
    assert_eq!(AuthStatus::Success(2, "walker".to_string()), result);
    assert_eq!(ConnectionState::Authenticated, find(&data.server, data.connections[0]).state);
}

#[test]
fn failed_challenge_makes_connection_defunct() {
    let mut data = setup_test();
    let signature = sign::sign_detached(data.challenge.as_slice(), &data.secret_keys[1]);
    let _ = data.server.challenge_result_request(data.connections[2], &signature.to_bytes().to_vec());
    assert_eq!(ConnectionState::Defunct, find(&data.server, data.connections[2]).state);
}

#[test]
fn challenge_with_malformed_signature_is_refused() {
    let mut data = setup_test();
    let err = data.server.challenge_result_request(data.connections[2], &vec![0u8; 10]).unwrap_err();
    assert!(matches!(err, Error::ProtocolError(_)));
}

#[test]
fn challenge_in_wrong_state_is_internal_error() {
    let mut data = setup_test();
    let err = data.server.challenge_result_request(data.connections[0], &vec![0u8; 64]).unwrap_err();
    assert_eq!(Error::InternalError("Connection State wrong.".to_string()), err);
    assert_eq!(ConnectionState::Defunct, find(&data.server, data.connections[0]).state);
}

#[test]
fn challenge_for_unknown_user_is_internal_error() {
    let mut data = setup_test();
    data.server.connections[2].1.user_id = 99;
    let err = data.server.challenge_result_request(data.connections[2], &vec![0u8; 64]).unwrap_err();
    assert_eq!(Error::InternalError("Illegal UserId used.".to_string()), err);
}

#[test]
fn error_texts() {
    assert_eq!("PermissionDenied", Error::PermissionDenied.to_string());
    assert_eq!("Illegal State", Error::ProtocolError("Illegal State".to_string()).to_string());
}
