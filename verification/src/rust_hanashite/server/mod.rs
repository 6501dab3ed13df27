//! Server state: connections with their roles, and named channels.

pub mod laws;
pub mod tcp;

use vstd::prelude::*;
use crate::idset::{keys_unique, seq_set_insert, seq_set_remove};
use crate::net::PeerAddr;
use crate::hanashite_server::configuration::Config;
use crate::hanashite_server::error::Error;

verus! {

/// What a connection may do.
#[derive(PartialEq, Eq, Hash, Debug, Clone)]
pub enum Role {
    /// Not allowed to do anything.
    PreAuth,
    /// Valid connected user.
    User,
    /// All permissions everywhere.
    Admin,
    /// Can enter this channel.
    Member(String),
    /// Can talk in this channel.
    Voice(String),
    /// Can kick, ban, voice and mute in this channel.
    Moderator(String),
}

/// A role as a value.
pub enum RoleView {
    PreAuth,
    User,
    Admin,
    Member(Seq<char>),
    Voice(Seq<char>),
    Moderator(Seq<char>),
}

impl View for Role {
    type V = RoleView;

    open spec fn view(&self) -> RoleView {
        match self {
            Role::PreAuth => RoleView::PreAuth,
            Role::User => RoleView::User,
            Role::Admin => RoleView::Admin,
            Role::Member(c) => RoleView::Member(c@),
            Role::Voice(c) => RoleView::Voice(c@),
            Role::Moderator(c) => RoleView::Moderator(c@),
        }
    }
}

/// A registered user.
#[derive(Debug, Clone, PartialEq, Eq)]
pub struct User {
    pub name: String,
    pub user_id: u128,
    pub roles: Vec<Role>,
}

/// A channel and the connections in it.
#[derive(Debug, Clone, PartialEq, Eq)]
pub struct Channel {
    pub channel_id: u128,
    pub channel_name: String,
    pub connections: Vec<u128>,
    pub private: bool,
    pub silent: bool,
}

/// An open control connection.
#[derive(Debug, Clone, PartialEq, Eq)]
pub struct Connection {
    pub addr: PeerAddr,
    pub connection_id: u128,
    pub user_name: String,
    pub roles: Vec<Role>,
    pub public_key: Option<Vec<u8>>,
}

/// The server: channels (keyed by name) and connections (keyed by
/// identifier).
pub struct Server {
    pub config: Box<Config>,
    pub channels: Vec<Channel>,
    pub connections: Vec<(u128, Connection)>,
}

pub struct ChannelView {
    pub channel_id: u128,
    pub channel_name: Seq<char>,
    pub connections: Seq<u128>,
    pub private: bool,
    pub silent: bool,
}

impl View for Channel {
    type V = ChannelView;

    open spec fn view(&self) -> ChannelView {
        ChannelView {
            channel_id: self.channel_id,
            channel_name: self.channel_name@,
            connections: self.connections@,
            private: self.private,
            silent: self.silent,
        }
    }
}

pub struct ConnectionView {
    pub addr: PeerAddr,
    pub connection_id: u128,
    pub user_name: Seq<char>,
    pub roles: Seq<RoleView>,
    pub public_key: Option<Seq<u8>>,
}

pub open spec fn roles_view(r: Seq<Role>) -> Seq<RoleView> {
    r.map_values(|x: Role| x@)
}

impl View for Connection {
    type V = ConnectionView;

    open spec fn view(&self) -> ConnectionView {
        ConnectionView {
            addr: self.addr,
            connection_id: self.connection_id,
            user_name: self.user_name@,
            roles: roles_view(self.roles@),
            public_key: match self.public_key {
                Some(k) => Some(k@),
                None => None,
            },
        }
    }
}

pub struct ServerView {
    pub channels: Seq<ChannelView>,
    pub connections: Seq<(u128, ConnectionView)>,
}

impl View for Server {
    type V = ServerView;

    open spec fn view(&self) -> ServerView {
        ServerView {
            channels: self.channels@.map_values(|c: Channel| c@),
            connections: self.connections@.map_values(|e: (u128, Connection)| (e.0, e.1@)),
        }
    }
}

impl ServerView {
    /// Connections are keyed by identifier and channels by name.
    pub open spec fn wf(self) -> bool {
        &&& keys_unique(self.connections)
        &&& forall|i: int, j: int|
            0 <= i < self.channels.len() && 0 <= j < self.channels.len() && self.channels[i].channel_name
                == self.channels[j].channel_name ==> i == j
    }
}

/// Whether a connection with the roles `roles` may act in role `role`: it
/// must be past the login, and be an admin or hold the role.
pub open spec fn permitted(roles: Seq<RoleView>, role: RoleView) -> bool {
    !roles.contains(RoleView::PreAuth) && (roles.contains(RoleView::Admin) || roles.contains(role))
}

/// Whether two roles are the same.
pub fn role_eq(a: &Role, b: &Role) -> (res: bool)
    ensures
        res == (a@ == b@),
{
    match (a, b) {
        (Role::PreAuth, Role::PreAuth) => true,
        (Role::User, Role::User) => true,
        (Role::Admin, Role::Admin) => true,
        (Role::Member(x), Role::Member(y)) => *x == *y,
        (Role::Voice(x), Role::Voice(y)) => *x == *y,
        (Role::Moderator(x), Role::Moderator(y)) => *x == *y,
        _ => false,
    }
}

/// Whether `roles` holds `role`.
pub fn has_role(roles: &Vec<Role>, role: &Role) -> (res: bool)
    ensures
        res == roles_view(roles@).contains(role@),
{
    let ghost rv = roles_view(roles@);
    let mut i: usize = 0;
    while i < roles.len()
        invariant
            i <= roles@.len(),
            rv == roles_view(roles@),
            forall|j: int| 0 <= j < i ==> rv[j] != role@,
        decreases roles@.len() - i,
    {
        if role_eq(&roles[i], role) {
            assert(rv[i as int] == role@);
            return true;
        }
        i = i + 1;
    }
    false
}

/// Adds `role` to `roles` unless it is there.
pub fn add_role(roles: &mut Vec<Role>, role: Role)
    ensures
        roles_view(final(roles)@) == seq_set_insert(roles_view(old(roles)@), role@),
{
    if !has_role(roles, &role) {
        let ghost rv = role@;
        roles.push(role);
        assert(roles_view(roles@) =~= roles_view(old(roles)@).push(rv));
    }
}

/// Removes every occurrence of `role` from `roles`.
pub fn drop_role(roles: &mut Vec<Role>, role: &Role)
    ensures
        roles_view(final(roles)@) == seq_set_remove(roles_view(old(roles)@), role@),
{
    let ghost orig = roles_view(roles@);
    let mut out: Vec<Role> = Vec::new();
    assert(orig.take(0) =~= Seq::<RoleView>::empty());
    assert(roles_view(out@) =~= Seq::<RoleView>::empty());
    while roles.len() > 0
        invariant
            roles_view(out@) == seq_set_remove(orig.take(orig.len() - roles@.len()), role@),
            roles_view(roles@) == orig.skip(orig.len() - roles@.len()),
            roles@.len() <= orig.len(),
        decreases roles@.len(),
    {
        let ghost n = orig.len() - roles@.len();
        let r = roles.remove(0);
        assert(orig.take(n + 1).drop_last() =~= orig.take(n));
        assert(orig.take(n + 1).last() == r@) by {
            assert(orig.skip(n)[0] == r@);
        }
        assert(roles_view(roles@) =~= orig.skip(n + 1)) by {
            assert(orig.skip(n + 1) =~= orig.skip(n).drop_first());
        }
        if !role_eq(&r, role) {
            let ghost before = out@;
            out.push(r);
            assert(roles_view(out@) =~= roles_view(before).push(r@));
        }
    }
    assert(orig.take(orig.len() as int) =~= orig);
    *roles = out;
}

impl Connection {
    /// Whether this connection may act in role `role`; refused with
    /// `PermissionDenied`.
    pub fn check_permission(&self, role: &Role) -> (res: Result<(), Error>)
        ensures
            res is Ok <==> permitted(self@.roles, role@),
            res matches Err(e) ==> e == Error::PermissionDenied,
    {
        if !has_role(&self.roles, &Role::PreAuth) && (has_role(&self.roles, &Role::Admin) || has_role(&self.roles, role)) {
            return Ok(());
        }
        Err(Error::PermissionDenied)
    }
}

impl Server {
    /// A server with the given configuration and no channels or connections.
    pub fn init(config: Box<Config>) -> (res: Server)
        ensures
            res@.channels.len() == 0,
            res@.connections.len() == 0,
            res@.wf(),
    {
        let s = Server { config, channels: Vec::new(), connections: Vec::new() };
        assert(s@.channels =~= Seq::empty());
        assert(s@.connections =~= Seq::empty());
        s
    }

    /// Registers connection `connection_id` from `addr`: no name, no key,
    /// and only the role of a connection before its login; in place of a
    /// connection with that identifier, if there is one.
    pub fn new_connection(&mut self, connection_id: u128, addr: PeerAddr)
        requires
            old(self)@.wf(),
        ensures
            final(self)@.wf(),
            final(self).config == old(self).config,
            final(self)@.channels == old(self)@.channels,
            final(self)@.connections == crate::hanashite_server::server::table_put(
                old(self)@.connections,
                connection_id,
                ConnectionView {
                    addr: addr,
                    connection_id: connection_id,
                    user_name: Seq::empty(),
                    roles: seq![RoleView::PreAuth],
                    public_key: None,
                },
            ),
    {
        let mut roles: Vec<Role> = Vec::new();
        roles.push(Role::PreAuth);
        let con = Connection { addr, connection_id, user_name: String::new(), roles, public_key: None };
        let ghost cv = con@;
        assert(cv.roles =~= seq![RoleView::PreAuth]);
        let ghost old_v = self@;
        match crate::idset::find_key(&self.connections, connection_id) {
            Some(i) => {
                proof {
                    crate::idset::lemma_key_pos_unique(old_v.connections, connection_id, i as int);
                }
                self.connections.set(i, (connection_id, con));
                assert(self@.connections =~= old_v.connections.update(i as int, (connection_id, cv)));
                assert forall|a: int, b: int| 0 <= a < self@.connections.len() && 0 <= b < self@.connections.len()
                    && self@.connections[a].0 == self@.connections[b].0 implies a == b by {
                    assert(self@.connections[a].0 == old_v.connections[a].0);
                    assert(self@.connections[b].0 == old_v.connections[b].0);
                }
            },
            None => {
                self.connections.push((connection_id, con));
                assert(self@.connections =~= old_v.connections.push((connection_id, cv)));
                assert forall|a: int, b: int| 0 <= a < self@.connections.len() && 0 <= b < self@.connections.len()
                    && self@.connections[a].0 == self@.connections[b].0 implies a == b by {
                    if a < old_v.connections.len() {
                        assert(self@.connections[a] == old_v.connections[a]);
                    }
                    if b < old_v.connections.len() {
                        assert(self@.connections[b] == old_v.connections[b]);
                    }
                }
                proof {
                    if crate::idset::key_pos(old_v.connections, connection_id) is Some {
                        let k = crate::idset::key_pos(old_v.connections, connection_id)->0;
                        assert(old_v.connections[k].0 == connection_id);
                    }
                }
            },
        }
        assert(self@.channels =~= old_v.channels);
    }
}

} // verus!
