//! What a connection's reader answers to the messages it receives.

use vstd::prelude::*;
use vstd::string::StringExecFns;
use crate::crypto::PUBLIC_KEY_BYTES;
use crate::crypto::public_key_from_slice;
use crate::hanashite_message::protos::{build_message, opt_uuid_bytes, try_uuid, try_uuid_spec};
use crate::hanashite_message::protos::hanmessage::{Auth, AuthResponse, Challenge, ChallengeResponse, HanMessage};
use crate::hanashite_message::protos::hanmessage::auth_response::{ResultState, result_state_number};
use crate::hanashite_message::protos::hanmessage::han_message::Msg;
use crate::idset::{find_key, key_pos};
use super::super::error::{internal_error, Error};
use super::super::server::{ServerStruct, ServerView, ConnStateView};
use super::super::server::auth::{challenge_answer, AuthStatus};

verus! {

/// The reader of one connection.
pub struct Reader {
    pub connection_id: u128,
}

/// An answer whose payload is an `AuthResponse`.
pub open spec fn is_auth_response(m: HanMessage, message_id: Option<u128>, result: i32, user_id: u32, text: Seq<char>) -> bool {
    &&& m.message_id@ == opt_uuid_bytes(message_id)
    &&& (m.msg matches Some(Msg::AuthResponse(r)) && r.result == result && r.user_id == user_id && r.message@ == text)
}

/// What `handle_auth` promises.
pub open spec fn auth_reply(pre: ServerView, post: ServerView, connection_id: u128, message_id: Option<u128>, msg: Auth, res: Result<Box<HanMessage>, Error>) -> bool {
    &&& key_pos(pre.connections, connection_id) is None ==> {
        &&& res matches Err(e) && (e matches Error::InternalError(m) && m@ == "Illegal Connection Id"@)
        &&& post == pre
    }
    &&& key_pos(pre.connections, connection_id) matches Some(i) ==> {
        if msg.public_key@.len() != PUBLIC_KEY_BYTES {
            &&& res matches Ok(m) && is_auth_response(*m, message_id, result_state_number(ResultState::BrokenKey), 0, "Illegal Public Key"@)
            &&& post == pre
        } else if pre.connections[i].1.state is Connected {
            &&& res matches Ok(m) && m.message_id@ == opt_uuid_bytes(message_id)
                && (m.msg matches Some(Msg::Challenge(c)) && c.chellange@.len() == 16
                && post == pre.after_auth_request(i, msg.username@, msg.public_key@, c.chellange@))
        } else {
            &&& res matches Err(e) && (e matches Error::ProtocolError(m) && m@ == "Illegal State"@)
            &&& post == pre.with_state(i, ConnStateView::Defunct)
        }
    }
}

/// What `handle_challenge_response` promises: the server's state after
/// the answer; an accepted signature is answered with `Success` and the
/// user id, any other outcome with the server's error.
pub open spec fn challenge_reply(pre: ServerView, post: ServerView, connection_id: u128, message_id: Option<u128>, msg: ChallengeResponse, res: Result<Box<HanMessage>, Error>) -> bool {
    &&& post == pre.after_challenge(connection_id, msg.signature@)
    &&& res is Ok <==> pre.challenge_accepted(connection_id, msg.signature@)
    &&& match res {
        Ok(m) => key_pos(pre.connections, connection_id) matches Some(i)
            && is_auth_response(*m, message_id, result_state_number(ResultState::Success), pre.connections[i].1.user_id, Seq::empty()),
        Err(e) => challenge_answer(pre, connection_id, msg.signature@, Err(e)),
    }
}

impl Reader {
    pub fn new(connection_id: &u128) -> (res: Reader)
        ensures
            res.connection_id == *connection_id,
    {
        Reader { connection_id: *connection_id }
    }

    /// Whether the server knows this reader's connection; the answer to an
    /// unknown one is an internal error ("Illegal Connection Id").
    fn check_connection(&self, server: &ServerStruct) -> (res: Result<(), Error>)
        ensures
            res is Ok <==> key_pos(server@.connections, self.connection_id) is Some,
            res matches Err(e) ==> e matches Error::InternalError(m) && m@ == "Illegal Connection Id"@,
    {
        match find_key(&server.connections, self.connection_id) {
            Some(i) => {
                assert(server@.connections[i as int].0 == self.connection_id);
                Ok(())
            },
            None => {
                proof {
                    if exists|k: int| 0 <= k < server@.connections.len() && server@.connections[k].0 == self.connection_id {
                        let k = choose|k: int| 0 <= k < server@.connections.len() && server@.connections[k].0 == self.connection_id;
                        assert(server.connections@[k].0 == self.connection_id);
                    }
                }
                Err(internal_error("Illegal Connection Id"))
            },
        }
    }

    /// The answer to a login: a well-formed public key starts the handshake
    /// and is answered with the challenge; any other key is answered with
    /// `BrokenKey` ("Illegal Public Key") and changes nothing.
    pub fn handle_auth(&self, server: &mut ServerStruct, message_id: &Option<u128>, msg: &Auth) -> (res: Result<Box<HanMessage>, Error>)
        requires
            old(server)@.wf(),
        ensures
            final(server)@.wf(),
            final(server).config == old(server).config,
            auth_reply(old(server)@, final(server)@, self.connection_id, *message_id, *msg, res),
    {
        self.check_connection(server)?;
        match public_key_from_slice(msg.public_key.as_slice()) {
            Some(key) => {
                let result = server.auth_request(self.connection_id, &msg.username, &key)?;
                match result {
                    AuthStatus::KeyChallenge(challenge) => Ok(build_message(message_id, Msg::Challenge(Challenge { chellange: challenge }))),
                    _ => Err(internal_error("Impossible Error")),
                }
            },
            None => {
                let r = ResultState::BrokenKey.number();
                Ok(build_message(message_id, Msg::AuthResponse(AuthResponse {
                    result: r,
                    user_id: 0,
                    message: "Illegal Public Key".to_owned(),
                })))
            },
        }
    }

    /// The answer to a challenge response: a signature that the server
    /// accepts is answered with `Success` and the user id; otherwise the
    /// server's error is the answer.
    pub fn handle_challenge_response(&self, server: &mut ServerStruct, message_id: &Option<u128>, msg: &ChallengeResponse) -> (res: Result<Box<HanMessage>, Error>)
        requires
            old(server)@.wf(),
        ensures
            final(server)@.wf(),
            final(server).config == old(server).config,
            challenge_reply(old(server)@, final(server)@, self.connection_id, *message_id, *msg, res),
    {
        let ghost old_v = server@;
        let result = match server.challenge_result_request(self.connection_id, &msg.signature) {
            Ok(r) => r,
            Err(e) => return Err(e),
        };
        proof {
            let op = key_pos(old_v.connections, self.connection_id);
            if op is Some {
                let i = op->0;
                assert(server@.connections[i].0 == self.connection_id);
            }
        }
        self.check_connection(server)?;
        match result {
            AuthStatus::Success(user_id, _user_name) => {
                let r = ResultState::Success.number();
                let m = build_message(message_id, Msg::AuthResponse(AuthResponse {
                    result: r,
                    user_id,
                    message: String::new(),
                }));
                assert(m.msg matches Some(Msg::AuthResponse(a)) && a.message@ == Seq::<char>::empty());
                Ok(m)
            },
            AuthStatus::Failed => {
                let r = ResultState::InvalidCredentials.number();
                Ok(build_message(message_id, Msg::AuthResponse(AuthResponse {
                    result: r,
                    user_id: 0,
                    message: "Illegal Signature".to_owned(),
                })))
            },
            _ => Err(internal_error("Impossible Error")),
        }
    }

    /// A message the reader does not take: an internal error whose text is
    /// "Illegal message: " followed by `message`.
    pub fn handle_illegal_msg(&self, _message_id: &Option<u128>, message: &str) -> (res: Result<Box<HanMessage>, Error>)
        ensures
            res matches Err(e) && (e matches Error::InternalError(m) && m@ == "Illegal message: "@ + message@),
    {
        let mut text = "Illegal message: ".to_owned();
        text.append(message);
        Err(Error::InternalError(text))
    }

    /// Answers a received message: logins and challenge responses are
    /// handled; any other message, or an empty one, is illegal.
    pub fn process_message(&self, server: &mut ServerStruct, msg: &HanMessage) -> (res: Result<Box<HanMessage>, Error>)
        requires
            old(server)@.wf(),
        ensures
            final(server)@.wf(),
            final(server).config == old(server).config,
            match msg.msg {
                Some(Msg::Auth(m)) => auth_reply(old(server)@, final(server)@, self.connection_id, try_uuid_spec(msg.message_id@), m, res),
                Some(Msg::ChallengeResponse(m)) => challenge_reply(old(server)@, final(server)@, self.connection_id, try_uuid_spec(msg.message_id@), m, res),
                Some(_) => final(server)@ == old(server)@ && (res matches Err(e)
                    && (e matches Error::InternalError(m) && m@ == "Illegal message: "@ + "Illegal Message Received"@)),
                None => final(server)@ == old(server)@ && (res matches Err(e)
                    && (e matches Error::InternalError(m) && m@ == "Illegal message: "@ + "Empty message"@)),
            },
    {
        let message_id = try_uuid(&msg.message_id);
        match &msg.msg {
            Some(Msg::Auth(m)) => self.handle_auth(server, &message_id, m),
            Some(Msg::ChallengeResponse(m)) => self.handle_challenge_response(server, &message_id, m),
            Some(_) => self.handle_illegal_msg(&message_id, "Illegal Message Received"),
            None => self.handle_illegal_msg(&message_id, "Empty message"),
        }
    }
}

} // verus!
