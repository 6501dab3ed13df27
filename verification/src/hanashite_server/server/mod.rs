//! Server state: connections, users and channels, and the requests that
//! change them.

pub mod auth;
pub mod channel;
pub mod laws;

use vstd::prelude::*;
use crate::idset::{find_key, key_pos, keys_unique, lemma_key_pos_unique};
use crate::ids::uuid_new_v4;
use super::configuration::Config;
use super::error::{internal_error, protocol_error, Error};

verus! {

/// A permission a connection can hold.
#[derive(PartialEq, Eq, Hash, Clone, Copy, Debug)]
pub enum Permission {
    Illegal,
}

/// Where a connection stands in the login handshake.
#[derive(PartialEq, Eq, Debug, Clone)]
pub enum ConnectionState {
    Connected,
    Challenged(Vec<u8>),
    Authenticated,
    Defunct,
}

impl Default for ConnectionState {
    fn default() -> (res: ConnectionState)
        ensures
            res is Defunct,
    {
        ConnectionState::Defunct
    }
}

/// What a connection's bus endpoint knows about it.
#[derive(Clone, Debug, PartialEq, Eq)]
pub struct ConnectionContext {
    pub name: String,
    pub state: ConnectionState,
    pub permissions: Vec<Permission>,
}

impl Default for ConnectionContext {
    fn default() -> (res: ConnectionContext)
        ensures
            res.name@ == Seq::<char>::empty(),
            res.state is Defunct,
            res.permissions@ == Seq::<Permission>::empty(),
    {
        ConnectionContext { name: String::new(), state: ConnectionState::Defunct, permissions: Vec::new() }
    }
}

/// An open control connection.
#[derive(Debug, Clone, PartialEq, Eq)]
pub struct Connection {
    pub user_id: u32,
    pub name: String,
    pub peer_addr: String,
    pub state: ConnectionState,
}

/// A known user: an identifier and the public key it logs in with.
#[derive(Debug, Clone, PartialEq, Eq)]
pub struct User {
    pub id: u32,
    pub public_key: Vec<u8>,
}

/// A channel: its members, and among them those that talk.
#[derive(Debug, Clone, PartialEq, Eq)]
pub struct Channel {
    pub name: String,
    pub audio: bool,
    pub connections: Vec<u128>,
    pub audio_connections: Vec<u128>,
}

/// The shared state of the server. Connections are keyed by their
/// identifier, users by their id, channels by their name.
pub struct ServerStruct {
    pub config: Box<Config>,
    pub connections: Vec<(u128, Connection)>,
    pub users: Vec<User>,
    pub channels: Vec<Channel>,
    pub next_user_id: u32,
}

/// The handshake state as a value.
pub enum ConnStateView {
    Connected,
    Challenged(Seq<u8>),
    Authenticated,
    Defunct,
}

pub open spec fn state_view(s: ConnectionState) -> ConnStateView {
    match s {
        ConnectionState::Connected => ConnStateView::Connected,
        ConnectionState::Challenged(c) => ConnStateView::Challenged(c@),
        ConnectionState::Authenticated => ConnStateView::Authenticated,
        ConnectionState::Defunct => ConnStateView::Defunct,
    }
}

pub struct ConnectionView {
    pub user_id: u32,
    pub name: Seq<char>,
    pub peer_addr: Seq<char>,
    pub state: ConnStateView,
}

impl View for Connection {
    type V = ConnectionView;

    open spec fn view(&self) -> ConnectionView {
        ConnectionView {
            user_id: self.user_id,
            name: self.name@,
            peer_addr: self.peer_addr@,
            state: state_view(self.state),
        }
    }
}

pub struct ChannelView {
    pub name: Seq<char>,
    pub audio: bool,
    pub connections: Seq<u128>,
    pub audio_connections: Seq<u128>,
}

impl View for Channel {
    type V = ChannelView;

    open spec fn view(&self) -> ChannelView {
        ChannelView {
            name: self.name@,
            audio: self.audio,
            connections: self.connections@,
            audio_connections: self.audio_connections@,
        }
    }
}

/// The state of the server as values: connections by identifier, users as
/// `(id, public key)` pairs, channels, and the next user id to hand out.
pub struct ServerView {
    pub connections: Seq<(u128, ConnectionView)>,
    pub users: Seq<(u32, Seq<u8>)>,
    pub channels: Seq<ChannelView>,
    pub next_user_id: u32,
}

pub open spec fn connections_view(s: Seq<(u128, Connection)>) -> Seq<(u128, ConnectionView)> {
    s.map_values(|e: (u128, Connection)| (e.0, e.1@))
}

pub open spec fn users_view(s: Seq<User>) -> Seq<(u32, Seq<u8>)> {
    s.map_values(|u: User| (u.id, u.public_key@))
}

pub open spec fn channels_view(s: Seq<Channel>) -> Seq<ChannelView> {
    s.map_values(|c: Channel| c@)
}

impl View for ServerStruct {
    type V = ServerView;

    open spec fn view(&self) -> ServerView {
        ServerView {
            connections: connections_view(self.connections@),
            users: users_view(self.users@),
            channels: channels_view(self.channels@),
            next_user_id: self.next_user_id,
        }
    }
}

/// No user id occurs twice.
pub open spec fn user_ids_unique(s: Seq<(u32, Seq<u8>)>) -> bool {
    forall|i: int, j: int| 0 <= i < s.len() && 0 <= j < s.len() && s[i].0 == s[j].0 ==> i == j
}

/// No channel name occurs twice.
pub open spec fn channel_names_unique(s: Seq<ChannelView>) -> bool {
    forall|i: int, j: int| 0 <= i < s.len() && 0 <= j < s.len() && s[i].name == s[j].name ==> i == j
}

impl ServerView {
    /// The tables are keyed: no key twice, and every public key is a key's
    /// thirty-two bytes.
    pub open spec fn wf(self) -> bool {
        &&& keys_unique(self.connections)
        &&& user_ids_unique(self.users)
        &&& forall|i: int| 0 <= i < self.users.len() ==> #[trigger] self.users[i].1.len() == 32
        &&& channel_names_unique(self.channels)
    }

    /// This state with connection `i` in the handshake state `st`.
    pub open spec fn with_state(self, i: int, st: ConnStateView) -> ServerView {
        ServerView {
            connections: self.connections.update(
                i,
                (self.connections[i].0, ConnectionView { state: st, ..self.connections[i].1 }),
            ),
            ..self
        }
    }
}

/// The table `s` with `(k, v)` put in: in place of the entry for `k`, or
/// added at the end.
pub open spec fn table_put<V>(s: Seq<(u128, V)>, k: u128, v: V) -> Seq<(u128, V)> {
    match key_pos(s, k) {
        Some(i) => s.update(i, (k, v)),
        None => s.push((k, v)),
    }
}

impl ServerStruct {
    /// A server with the given configuration and nothing in it yet; user
    /// ids start at 1.
    pub fn init(config: Box<Config>) -> (res: ServerStruct)
        ensures
            res@.connections.len() == 0,
            res@.users.len() == 0,
            res@.channels.len() == 0,
            res@.next_user_id == 1,
            res@.wf(),
            res.config == config,
    {
        let res = ServerStruct {
            config,
            connections: Vec::new(),
            users: Vec::new(),
            channels: Vec::new(),
            next_user_id: 1,
        };
        assert(res@.connections =~= Seq::empty());
        assert(res@.users =~= Seq::empty());
        assert(res@.channels =~= Seq::empty());
        res
    }

    /// Sets the handshake state of connection `i`.
    pub(crate) fn set_state(&mut self, i: usize, st: ConnectionState)
        requires
            i < old(self).connections@.len(),
        ensures
            final(self)@ == old(self)@.with_state(i as int, state_view(st)),
            final(self).config == old(self).config,
    {
        let ghost sv = state_view(st);
        self.connections[i].1.state = st;
        assert(final(self)@.connections =~= old(self)@.with_state(i as int, sv).connections);
    }

    /// Registers a new connection from `addr` under a fresh random
    /// identifier, in the state `Connected`, and hands back the identifier.
    pub fn new_connection(&mut self, addr: &String) -> (res: u128)
        requires
            old(self)@.wf(),
        ensures
            final(self)@.wf(),
            final(self)@ == (ServerView {
                connections: table_put(
                    old(self)@.connections,
                    res,
                    ConnectionView {
                        user_id: 0,
                        name: Seq::empty(),
                        peer_addr: addr@,
                        state: ConnStateView::Connected,
                    },
                ),
                ..old(self)@
            }),
    {
        let connection_id = uuid_new_v4();
        let con = Connection {
            state: ConnectionState::Connected,
            user_id: 0,
            name: String::new(),
            peer_addr: addr.clone(),
        };
        let ghost cv = con@;
        let ghost old_v = self@;
        match find_key(&self.connections, connection_id) {
            Some(i) => {
                proof {
                    lemma_key_pos_unique(old_v.connections, connection_id, i as int);
                }
                self.connections.set(i, (connection_id, con));
                assert(self@.connections =~= old_v.connections.update(i as int, (connection_id, cv)));
            },
            None => {
                self.connections.push((connection_id, con));
                assert(self@.connections =~= old_v.connections.push((connection_id, cv)));
            },
        }
        connection_id
    }

    /// Drops connection `connection_id`; tells whether there was one.
    pub fn terminate_connection(&mut self, connection_id: u128) -> (res: bool)
        requires
            old(self)@.wf(),
        ensures
            final(self)@.wf(),
            res == (key_pos(old(self)@.connections, connection_id) is Some),
            final(self)@ == (match key_pos(old(self)@.connections, connection_id) {
                Some(i) => ServerView { connections: old(self)@.connections.remove(i), ..old(self)@ },
                None => old(self)@,
            }),
    {
        let ghost old_v = self@;
        match find_key(&self.connections, connection_id) {
            Some(i) => {
                proof {
                    lemma_key_pos_unique(old_v.connections, connection_id, i as int);
                }
                self.connections.remove(i);
                assert(self@.connections =~= old_v.connections.remove(i as int));
                true
            },
            None => {
                proof {
                    assert(key_pos(old_v.connections, connection_id) is None) by {
                        if exists|k: int| 0 <= k < old_v.connections.len() && old_v.connections[k].0 == connection_id {
                            let k = choose|k: int| 0 <= k < old_v.connections.len() && old_v.connections[k].0 == connection_id;
                            assert(self.connections@[k].0 == connection_id);
                        }
                    }
                }
                false
            },
        }
    }
}

/// The position of connection `connection_id` if it is there and still in
/// the state `Connected`: an unknown connection is an internal error
/// ("Illegal Connection used."), one past the handshake start a protocol
/// error ("Connection not active.").
pub fn get_valid_connection(connections: &Vec<(u128, Connection)>, connection_id: u128) -> (res: Result<usize, Error>)
    requires
        keys_unique(connections_view(connections@)),
    ensures
        match key_pos(connections_view(connections@), connection_id) {
            None => res matches Err(Error::InternalError(m)) && m@ == "Illegal Connection used."@,
            Some(i) => if connections_view(connections@)[i].1.state is Connected {
                res == Ok::<usize, Error>(i as usize)
            } else {
                res matches Err(Error::ProtocolError(m)) && m@ == "Connection not active."@
            },
        },
{
    let ghost cv = connections_view(connections@);
    match find_key(connections, connection_id) {
        Some(i) => {
            proof {
                lemma_key_pos_unique(cv, connection_id, i as int);
            }
            if let ConnectionState::Connected = connections[i].1.state {
                Ok(i)
            } else {
                Err(protocol_error("Connection not active."))
            }
        },
        None => {
            proof {
                if exists|k: int| 0 <= k < cv.len() && cv[k].0 == connection_id {
                    let k = choose|k: int| 0 <= k < cv.len() && cv[k].0 == connection_id;
                    assert(connections@[k].0 == connection_id);
                }
            }
            Err(internal_error("Illegal Connection used."))
        },
    }
}

} // verus!
