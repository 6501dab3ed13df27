//! The login handshake: a connection names a user and a public key, gets a
//! random challenge, and is authenticated once it returns a signature of the
//! challenge under that key.

use vstd::prelude::*;
use crate::crypto::{ed25519_verify, fill_random, signature_from_slice, signature_well_formed, verify_detached};
use crate::idset::{bytes_equal, find_key, key_pos, lemma_key_pos_unique};
use super::super::error::{internal_error, protocol_error, Error};
use super::{user_ids_unique, ConnectionState, ConnStateView, ConnectionView, ServerStruct, ServerView, User, state_view, users_view};

verus! {

/// What a step of the handshake leads to.
#[derive(PartialEq, Eq, Debug, Clone)]
pub enum AuthStatus {
    KeyChallenge(Vec<u8>),
    Success(u32, String),
    Failed,
    Unknown,
}

/// The position of the first user whose public key is `key`.
pub open spec fn first_user_with_key(users: Seq<(u32, Seq<u8>)>, key: Seq<u8>) -> Option<int> {
    if exists|i: int| 0 <= i < users.len() && users[i].1 == key {
        Some(
            choose|i: int|
                0 <= i < users.len() && users[i].1 == key && forall|j: int| 0 <= j < i ==> users[j].1 != key,
        )
    } else {
        None
    }
}

/// The position of the user with id `id`.
pub open spec fn user_pos(users: Seq<(u32, Seq<u8>)>, id: u32) -> Option<int> {
    if exists|i: int| 0 <= i < users.len() && users[i].0 == id {
        Some(choose|i: int| 0 <= i < users.len() && users[i].0 == id)
    } else {
        None
    }
}

/// The users with `(id, key)` put in: in place of the user with that id, or
/// added at the end.
pub open spec fn users_put(users: Seq<(u32, Seq<u8>)>, id: u32, key: Seq<u8>) -> Seq<(u32, Seq<u8>)> {
    match user_pos(users, id) {
        Some(i) => users.update(i, (id, key)),
        None => users.push((id, key)),
    }
}

/// The successor of `n`, wrapping from the largest value to 0.
pub open spec fn wrapping_inc(n: u32) -> u32 {
    if n == u32::MAX {
        0
    } else {
        (n + 1) as u32
    }
}

impl ServerView {
    /// The user id a login with `key` gets, the users afterwards and the
    /// next user id afterwards: the first user with that key keeps its id;
    /// otherwise a new user gets the next id.
    pub open spec fn login_user(self, key: Seq<u8>) -> (u32, Seq<(u32, Seq<u8>)>, u32) {
        match first_user_with_key(self.users, key) {
            Some(j) => (self.users[j].0, self.users, self.next_user_id),
            None => (
                self.next_user_id,
                users_put(self.users, self.next_user_id, key),
                wrapping_inc(self.next_user_id),
            ),
        }
    }

    /// The state after connection `i` asked to log in as `name` with `key`
    /// and was handed the challenge `ch`.
    pub open spec fn after_auth_request(self, i: int, name: Seq<char>, key: Seq<u8>, ch: Seq<u8>) -> ServerView {
        let (uid, users, next) = self.login_user(key);
        ServerView {
            connections: self.connections.update(
                i,
                (
                    self.connections[i].0,
                    ConnectionView {
                        user_id: uid,
                        name: name,
                        state: ConnStateView::Challenged(ch),
                        ..self.connections[i].1
                    },
                ),
            ),
            users: users,
            next_user_id: next,
            ..self
        }
    }
}

impl ServerView {
    /// Whether connection `connection_id` completes the handshake with
    /// `signature`: it is waiting for the answer to a challenge, its user is
    /// known, and the signature is well formed and signs the challenge under
    /// the user's key.
    pub open spec fn challenge_accepted(self, connection_id: u128, signature: Seq<u8>) -> bool {
        match key_pos(self.connections, connection_id) {
            None => false,
            Some(i) => match self.connections[i].1.state {
                ConnStateView::Challenged(ch) => match user_pos(self.users, self.connections[i].1.user_id) {
                    None => false,
                    Some(u) => signature_well_formed(signature) && ed25519_verify(signature, ch, self.users[u].1),
                },
                _ => false,
            },
        }
    }

    /// The state after connection `connection_id` answered its challenge with
    /// `signature`: `Authenticated` if the answer is accepted, `Defunct`
    /// otherwise; nothing changes for an unknown connection.
    pub open spec fn after_challenge(self, connection_id: u128, signature: Seq<u8>) -> ServerView {
        match key_pos(self.connections, connection_id) {
            None => self,
            Some(i) => if self.challenge_accepted(connection_id, signature) {
                self.with_state(i, ConnStateView::Authenticated)
            } else {
                self.with_state(i, ConnStateView::Defunct)
            },
        }
    }
}

/// What the server answers when connection `connection_id` hands in
/// `signature` for its challenge: an unknown connection, one that is not
/// waiting for an answer, or one bound to an unknown user is an internal
/// error; an accepted signature names the user and the connection's name;
/// any other signature is a protocol error.
pub open spec fn challenge_answer(v: ServerView, connection_id: u128, signature: Seq<u8>, res: Result<AuthStatus, Error>) -> bool {
    match key_pos(v.connections, connection_id) {
        None => res matches Err(Error::InternalError(m)) && m@ == "Illegal Connection used."@,
        Some(i) => match v.connections[i].1.state {
            ConnStateView::Challenged(ch) => match user_pos(v.users, v.connections[i].1.user_id) {
                None => res matches Err(Error::InternalError(m)) && m@ == "Illegal UserId used."@,
                Some(u) => if signature_well_formed(signature) && ed25519_verify(signature, ch, v.users[u].1) {
                    res matches Ok(AuthStatus::Success(id, name)) && id == v.users[u].0 && name@ == v.connections[i].1.name
                } else {
                    res matches Err(Error::ProtocolError(m)) && m@ == "Illegal Signature\n            "@
                },
            },
            _ => res matches Err(Error::InternalError(m)) && m@ == "Connection State wrong."@,
        },
    }
}

impl ServerStruct {
    /// Finds the first user whose public key is `key`.
    fn find_user_by_key(&self, key: &Vec<u8>) -> (res: Option<usize>)
        ensures
            res matches Some(j) ==> j < self@.users.len() && self@.users[j as int].1 == key@
                && first_user_with_key(self@.users, key@) == Some(j as int),
            res is None ==> first_user_with_key(self@.users, key@) is None,
            res == (match first_user_with_key(self@.users, key@) {
                Some(j) => Some(j as usize),
                None => None::<usize>,
            }),
    {
        let ghost us = self@.users;
        let mut i: usize = 0;
        while i < self.users.len()
            invariant
                i <= self.users@.len(),
                us == self@.users,
                forall|j: int| 0 <= j < i ==> us[j].1 != key@,
            decreases self.users@.len() - i,
        {
            if bytes_equal(self.users[i].public_key.as_slice(), key.as_slice()) {
                proof {
                    assert(us[i as int].1 == key@);
                    let m = choose|m: int| 0 <= m < us.len() && us[m].1 == key@
                        && forall|j: int| 0 <= j < m ==> us[j].1 != key@;
                    if m < i {
                    } else if m > i {
                        assert(us[i as int].1 != key@);
                    }
                }
                return Some(i);
            }
            i = i + 1;
        }
        None
    }

    /// Finds the user with id `id`.
    fn find_user(&self, id: u32) -> (res: Option<usize>)
        requires
            self@.wf(),
        ensures
            res matches Some(j) ==> j < self@.users.len() && self@.users[j as int].0 == id
                && user_pos(self@.users, id) == Some(j as int),
            res is None ==> user_pos(self@.users, id) is None,
            res == (match user_pos(self@.users, id) {
                Some(j) => Some(j as usize),
                None => None::<usize>,
            }),
    {
        let ghost us = self@.users;
        let mut i: usize = 0;
        while i < self.users.len()
            invariant
                i <= self.users@.len(),
                us == self@.users,
                user_ids_unique(us),
                forall|j: int| 0 <= j < i ==> us[j].0 != id,
            decreases self.users@.len() - i,
        {
            if self.users[i].id == id {
                proof {
                    assert(us[i as int].0 == id);
                    let m = choose|m: int| 0 <= m < us.len() && us[m].0 == id;
                    assert(user_ids_unique(us));
                    assert(us[m].0 == us[i as int].0);
                    assert(m == i);
                }
                return Some(i);
            }
            i = i + 1;
        }
        None
    }

    /// Puts the user `(id, key)` into the users.
    fn put_user(&mut self, id: u32, key: Vec<u8>)
        requires
            old(self)@.wf(),
            key@.len() == 32,
        ensures
            final(self)@ == (ServerView { users: users_put(old(self)@.users, id, key@), ..old(self)@ }),
            final(self)@.wf(),
            final(self).config == old(self).config,
    {
        let ghost old_v = self@;
        let ghost kv = key@;
        match self.find_user(id) {
            Some(j) => {
                self.users.set(j, User { id, public_key: key });
                assert(self@.users =~= old_v.users.update(j as int, (id, kv)));
                assert forall|a: int| 0 <= a < self@.users.len() implies #[trigger] self@.users[a].1.len() == 32 by {
                    if a != j {
                        assert(self@.users[a] == old_v.users[a]);
                    }
                }
            },
            None => {
                self.users.push(User { id, public_key: key });
                assert(self@.users =~= old_v.users.push((id, kv)));
                assert forall|a: int| 0 <= a < self@.users.len() implies #[trigger] self@.users[a].1.len() == 32 by {
                    if a < old_v.users.len() {
                        assert(self@.users[a] == old_v.users[a]);
                    }
                }
                assert forall|a: int, b: int| 0 <= a < self@.users.len() && 0 <= b < self@.users.len()
                    && self@.users[a].0 == self@.users[b].0 implies a == b by {
                    if a < old_v.users.len() {
                        assert(self@.users[a] == old_v.users[a]);
                    }
                    if b < old_v.users.len() {
                        assert(self@.users[b] == old_v.users[b]);
                    }
                }
            },
        }
    }

    /// Determines the user a login with `key` is for, creating it if needed.
    fn login(&mut self, key: &Vec<u8>) -> (res: u32)
        requires
            old(self)@.wf(),
            key@.len() == 32,
        ensures
            final(self)@.wf(),
            final(self).config == old(self).config,
            res == old(self)@.login_user(key@).0,
            final(self)@ == (ServerView {
                users: old(self)@.login_user(key@).1,
                next_user_id: old(self)@.login_user(key@).2,
                ..old(self)@
            }),
    {
        match self.find_user_by_key(key) {
            Some(j) => {
                let id = self.users[j].id;
                id
            },
            None => {
                let id = self.next_user_id;
                self.next_user_id = if id == u32::MAX { 0 } else { id + 1 };
                let k = key.clone();
                assert(k@ =~= key@);
                self.put_user(id, k);
                id
            },
        }
    }

    /// Binds connection `i` to user `user_id` under `name` and puts it into
    /// the state `Challenged(challenge)`.
    fn bind_challenge(&mut self, i: usize, user_id: u32, name: &String, challenge: Vec<u8>)
        requires
            i < old(self).connections@.len(),
        ensures
            final(self).config == old(self).config,
            final(self)@ == (ServerView {
                connections: old(self)@.connections.update(
                    i as int,
                    (
                        old(self)@.connections[i as int].0,
                        ConnectionView {
                            user_id: user_id,
                            name: name@,
                            state: ConnStateView::Challenged(challenge@),
                            ..old(self)@.connections[i as int].1
                        },
                    ),
                ),
                ..old(self)@
            }),
    {
        let ghost cv = challenge@;
        self.connections[i].1.user_id = user_id;
        self.connections[i].1.name = name.clone();
        self.connections[i].1.state = ConnectionState::Challenged(challenge);
        assert(final(self)@.connections =~= old(self)@.connections.update(
            i as int,
            (
                old(self)@.connections[i as int].0,
                ConnectionView {
                    user_id: user_id,
                    name: name@,
                    state: ConnStateView::Challenged(cv),
                    ..old(self)@.connections[i as int].1
                },
            ),
        ));
    }

    /// A connection in the state `Connected` asks to log in as `user_name`
    /// with `public_key`: it is bound to the user holding that key (a new
    /// user under the next id if there is none), given a fresh random
    /// challenge of sixteen bytes and put into the state `Challenged`.
    /// An unknown connection is an internal error; a connection in another
    /// state becomes `Defunct` and gets a protocol error.
    pub fn auth_request(&mut self, connection_id: u128, user_name: &String, public_key: &Vec<u8>) -> (res: Result<AuthStatus, Error>)
        requires
            old(self)@.wf(),
            public_key@.len() == 32,
        ensures
            final(self)@.wf(),
            final(self).config == old(self).config,
            match key_pos(old(self)@.connections, connection_id) {
                None => {
                    &&& res matches Err(Error::InternalError(m)) && m@ == "Illegal Connection used."@
                    &&& final(self)@ == old(self)@
                },
                Some(i) => if !(old(self)@.connections[i].1.state is Connected) {
                    &&& res matches Err(Error::ProtocolError(m)) && m@ == "Illegal State"@
                    &&& final(self)@ == old(self)@.with_state(i, ConnStateView::Defunct)
                } else {
                    &&& res matches Ok(AuthStatus::KeyChallenge(ch)) && ch@.len() == 16
                        && final(self)@ == old(self)@.after_auth_request(i, user_name@, public_key@, ch@)
                },
            },
    {
        let ghost old_v = self@;
        let i = match find_key(&self.connections, connection_id) {
            Some(i) => i,
            None => {
                proof {
                    if exists|k: int| 0 <= k < old_v.connections.len() && old_v.connections[k].0 == connection_id {
                        let k = choose|k: int| 0 <= k < old_v.connections.len() && old_v.connections[k].0 == connection_id;
                        assert(self.connections@[k].0 == connection_id);
                    }
                }
                return Err(internal_error("Illegal Connection used."));
            },
        };
        proof {
            lemma_key_pos_unique(old_v.connections, connection_id, i as int);
        }
        let connected = match &self.connections[i].1.state {
            ConnectionState::Connected => true,
            _ => false,
        };
        if !connected {
            self.set_state(i, ConnectionState::Defunct);
            return Err(protocol_error("Illegal State"));
        }
        let user_id = self.login(public_key);
        let mut challenge: Vec<u8> = Vec::new();
        let mut k: usize = 0;
        while k < 16
            invariant
                k <= 16,
                challenge@.len() == k,
            decreases 16 - k,
        {
            challenge.push(0);
            k = k + 1;
        }
        fill_random(&mut challenge);
        let stored = challenge.clone();
        assert(stored@ =~= challenge@);
        self.bind_challenge(i, user_id, user_name, stored);
        Ok(AuthStatus::KeyChallenge(challenge))
    }

    /// A connection in the state `Challenged` hands in the signature of its
    /// challenge. It becomes `Authenticated`, and the answer names its user
    /// and name, when the signature is well formed and signs the challenge
    /// under the user's key; otherwise it becomes `Defunct` and gets a
    /// protocol error. An unknown connection is an internal error; one in
    /// another state, or bound to an unknown user, becomes `Defunct` with an
    /// internal error.
    pub fn challenge_result_request(&mut self, connection_id: u128, signature: &Vec<u8>) -> (res: Result<AuthStatus, Error>)
        requires
            old(self)@.wf(),
        ensures
            final(self)@.wf(),
            final(self).config == old(self).config,
            final(self)@ == old(self)@.after_challenge(connection_id, signature@),
            res is Ok <==> old(self)@.challenge_accepted(connection_id, signature@),
            challenge_answer(old(self)@, connection_id, signature@, res),
    {
        let ghost old_v = self@;
        let i = match find_key(&self.connections, connection_id) {
            Some(i) => i,
            None => {
                proof {
                    if exists|k: int| 0 <= k < old_v.connections.len() && old_v.connections[k].0 == connection_id {
                        let k = choose|k: int| 0 <= k < old_v.connections.len() && old_v.connections[k].0 == connection_id;
                        assert(self.connections@[k].0 == connection_id);
                    }
                }
                return Err(internal_error("Illegal Connection used."));
            },
        };
        proof {
            lemma_key_pos_unique(old_v.connections, connection_id, i as int);
        }
        let challenge: Vec<u8> = match &self.connections[i].1.state {
            ConnectionState::Challenged(c) => {
                let c2 = c.clone();
                assert(c2@ =~= c@);
                c2
            },
            _ => {
                self.set_state(i, ConnectionState::Defunct);
                return Err(internal_error("Connection State wrong."));
            },
        };
        let u = match self.find_user(self.connections[i].1.user_id) {
            Some(u) => u,
            None => {
                self.set_state(i, ConnectionState::Defunct);
                return Err(internal_error("Illegal UserId used."));
            },
        };
        assert(self@.users[u as int].1.len() == 32);
        if signature_from_slice(signature.as_slice()) {
            if verify_detached(signature.as_slice(), challenge.as_slice(), self.users[u].public_key.as_slice()) {
                let id = self.users[u].id;
                let name = self.connections[i].1.name.clone();
                self.set_state(i, ConnectionState::Authenticated);
                return Ok(AuthStatus::Success(id, name));
            }
        }
        self.set_state(i, ConnectionState::Defunct);
        Err(protocol_error("Illegal Signature\n            "))
    }
}

} // verus!
