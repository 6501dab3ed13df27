//! The handlers of the control stream: what a client's message does to the
//! server state and what it is answered.
//!
//! Each handler acts for the client whose connection identifier is
//! `client`; `uuid` is the identifier of the message, which the answer
//! carries back. Channels are searched in table order.

use vstd::prelude::*;
use crate::framing::{decode_frame, encode_header, frame_decision, header_bytes, DecodeError, FrameError};
use crate::hanashite_message::protos::try_uuid_spec;
use crate::ids::{uuid_as_bytes, uuid_bytes, uuid_from_slice, uuid_new_v4};
use crate::idset::{find_key, key_pos, lemma_key_pos_unique, seq_set_insert, seq_set_remove, set_insert, set_remove};
use crate::rust_hanashite::protos::hanmessage::{
    Auth, AuthResult, ChannelCreate, ChannelCreateResult, ChannelDelete, ChannelDeleteResult, ChannelJoin,
    ChannelJoinResult, ChannelList, ChannelListResult, ChannelListentry, ChannelPart, ChannelPartResult,
    ChannelStatus, ChannelStatusResult, HanMessage, Status, StatusResult, StreamHeader, UserEntry,
};
use crate::rust_hanashite::protos::hanmessage::han_message::Msg;
use super::controlserver::{
    channels_view, find_channel_named, find_channel_with, first_channel_named, first_channel_with,
    remove_from_all, ChannelState, ChannelStateView, ClientView, PeerAddr, ServerState, StateView,
};
use super::util::{protocol_error, Error};

pub mod message;

verus! {

/// Messages from the server logic to a connection's writer.
#[derive(Debug, Clone, PartialEq, Eq)]
pub enum InternalMsg {
    DISCONNECT,
    SENDCTRL(Box<HanMessage>),
}

/// Where a client stands.
#[derive(Debug, Clone, Copy, PartialEq, Eq, Structural, Hash)]
pub enum ClientState {
    CONNECTED,
    LOGGEDIN,
}

/// A connected client.
#[derive(Debug, Clone, PartialEq, Eq)]
pub struct ClientHandle {
    pub username: String,
    pub uuid: u128,
    pub client_state: ClientState,
    pub udp_socket: Option<PeerAddr>,
}

/// Codec of the control stream.
pub struct MessageParser {}

/// The magic number of the control stream's headers.
pub const MAGIC: u32 = 0x00008A71;

/// Whether `m` is an answer to message `uuid` with payload `p`.
pub open spec fn answers(m: HanMessage, uuid: u128, p: Msg) -> bool {
    m.message_id@ == uuid_bytes(uuid) && m.msg == Some(p)
}

/// The answer's payload, if the answer is to message `uuid`.
pub open spec fn payload(m: HanMessage, uuid: u128) -> Option<Msg> {
    if m.message_id@ == uuid_bytes(uuid) {
        m.msg
    } else {
        None
    }
}

/// The entries of a channel status for the users `users`: one per user that
/// is a connected client, with its name and the bytes of its identifier.
pub open spec fn status_entries(users: Seq<u128>, clients: Seq<(u128, ClientView)>) -> Seq<(Seq<char>, Seq<u8>)>
    decreases users.len(),
{
    if users.len() == 0 {
        Seq::empty()
    } else {
        let r = status_entries(users.drop_last(), clients);
        match key_pos(clients, users.last()) {
            Some(k) => r.push((clients[k].1.username, uuid_bytes(clients[k].1.uuid))),
            None => r,
        }
    }
}

/// What `handle_auth` promises.
pub open spec fn auth_post(pre: StateView, post: StateView, client: u128, uuid: u128, msg: Auth, res: Result<Box<HanMessage>, Error>) -> bool {
    &&& post.channels == pre.channels
    &&& ({
        let i = key_pos(pre.clients, client)->0;
        let c = pre.clients[i].1;
        if c.client_state == ClientState::LOGGEDIN {
            &&& res matches Err(Error::ProtocolError(m)) && m@ == "Relogin after login !"@
            &&& post == pre
        } else {
            &&& post.clients == pre.clients.update(
                i,
                (client, ClientView { username: msg.username@, client_state: ClientState::LOGGEDIN, ..c }),
            )
            &&& res matches Ok(m) && (payload(*m, uuid) matches Some(Msg::AuthResult(r))
                && r.success && r.connection_id@ == uuid_bytes(c.uuid))
        }
    })
}

/// What `handle_chan_crea` promises.
pub open spec fn chan_crea_post(pre: StateView, post: StateView, client: u128, uuid: u128, msg: ChannelCreate, res: Result<Box<HanMessage>, Error>) -> bool {
    &&& post.clients == pre.clients
    &&& match first_channel_named(pre.channels, msg.name@) {
        Some(k) => {
            &&& post == pre
            &&& res matches Ok(m) && (payload(*m, uuid) matches Some(Msg::ChanCreaResult(r))
                && !r.success && r.name@ == msg.name@
                && r.channel_id@ == uuid_bytes(pre.channels[k].0))
        },
        None => res matches Ok(m) && (payload(*m, uuid) matches Some(Msg::ChanCreaResult(r))
            && r.success && r.name@ == msg.name@
            && exists|c: u128| r.channel_id@ == uuid_bytes(c)
                && #[trigger] post.channels == crate::hanashite_server::server::table_put(
                    pre.channels, c, ChannelStateView { name: msg.name@, users: Seq::empty() })),
    }
}

/// What `handle_chan_del` promises.
pub open spec fn chan_del_post(pre: StateView, post: StateView, client: u128, uuid: u128, msg: ChannelDelete, res: Result<Box<HanMessage>, Error>) -> bool {
    &&& post.clients == pre.clients
    &&& match first_channel_named(pre.channels, msg.name@) {
        Some(k) => {
            &&& post.channels == pre.channels.remove(k)
            &&& res matches Ok(m) && (payload(*m, uuid) matches Some(Msg::ChanDelResult(r))
                && r.success && r.name@ == msg.name@
                && r.channel_id@ == uuid_bytes(pre.channels[k].0))
        },
        None => {
            &&& post == pre
            &&& res matches Ok(m) && (payload(*m, uuid) matches Some(Msg::ChanDelResult(r))
                && !r.success && r.name@ == msg.name@ && r.channel_id@.len() == 0)
        }
    }
}

/// What `handle_status` promises.
pub open spec fn status_post(pre: StateView, client: u128, uuid: u128, msg: Status, res: Result<Box<HanMessage>, Error>) -> bool {
    &&& ({
        let c = pre.clients[key_pos(pre.clients, client)->0].1;
        res matches Ok(m) && (payload(*m, uuid) matches Some(Msg::StatusResult(r))
            && r.name@ == c.username && r.connection_id@ == uuid_bytes(c.uuid)
            && r.channel@ == match first_channel_with(pre.channels, c.uuid) {
                Some(k) => pre.channels[k].1.name,
                None => Seq::empty(),
            })
    })
}

/// What `handle_chan_status` promises.
pub open spec fn chan_status_post(pre: StateView, client: u128, uuid: u128, msg: ChannelStatus, res: Result<Box<HanMessage>, Error>) -> bool {
    &&& res matches Ok(m) && (payload(*m, uuid) matches Some(Msg::ChanStatusResult(r)) && match first_channel_named(pre.channels, msg.name@) {
        Some(k) => {
            &&& r.name@ == pre.channels[k].1.name
            &&& r.channel_id@ == uuid_bytes(pre.channels[k].0)
            &&& r.user@.map_values(|e: UserEntry| (e.name@, e.user_id@)) == status_entries(pre.channels[k].1.users, pre.clients)
        },
        None => r.name@.len() == 0 && r.channel_id@.len() == 0 && r.user@.len() == 0,
    })
}

/// What `handle_chan_part` promises.
pub open spec fn chan_part_post(pre: StateView, post: StateView, client: u128, uuid: u128, msg: ChannelPart, res: Result<Box<HanMessage>, Error>) -> bool {
    &&& post.clients == pre.clients
    &&& ({
        let me = pre.clients[key_pos(pre.clients, client)->0].1.uuid;
        match first_channel_with(pre.channels, me) {
            Some(k) => {
                &&& post.channels == pre.channels.update(
                    k,
                    (pre.channels[k].0, ChannelStateView {
                        users: seq_set_remove(pre.channels[k].1.users, me),
                        ..pre.channels[k].1
                    }),
                )
                &&& res matches Ok(m) && (payload(*m, uuid) matches Some(Msg::ChanPartResult(r))
                    && r.success && r.name@ == pre.channels[k].1.name
                    && r.channel_id@ == uuid_bytes(pre.channels[k].0))
            },
            None => {
                &&& post == pre
                &&& res matches Ok(m) && (payload(*m, uuid) matches Some(Msg::ChanPartResult(r))
                    && !r.success && r.name@.len() == 0 && r.channel_id@.len() == 0)
            },
        }
    })
}

/// What `handle_chan_lst` promises.
pub open spec fn chan_lst_post(pre: StateView, client: u128, uuid: u128, msg: ChannelList, res: Result<Box<HanMessage>, Error>) -> bool {
    &&& res matches Ok(m) && (payload(*m, uuid) matches Some(Msg::ChanLstResult(r))
        && r.channel@.map_values(|e: ChannelListentry| (e.name@, e.channel_id@))
            == pre.channels.map_values(|c: (u128, ChannelStateView)| (c.1.name, uuid_bytes(c.0))))
}

/// What `handle_chan_join` promises.
pub open spec fn chan_join_post(pre: StateView, post: StateView, client: u128, uuid: u128, msg: ChannelJoin, res: Result<Box<HanMessage>, Error>) -> bool {
    &&& post.clients == pre.clients
    &&& ({
        let c = pre.clients[key_pos(pre.clients, client)->0].1;
        let left = remove_from_all(pre.channels, c.uuid);
        if c.client_state == ClientState::CONNECTED {
            &&& res matches Err(Error::ProtocolError(m)) && m@ == "Not Logged in"@
            &&& post == pre
        } else {
            match first_channel_named(pre.channels, msg.name@) {
                Some(k) => {
                    &&& post.channels == left.update(
                        k,
                        (left[k].0, ChannelStateView { users: seq_set_insert(left[k].1.users, c.uuid), ..left[k].1 }),
                    )
                    &&& res matches Ok(m) && (payload(*m, uuid) matches Some(Msg::ChanJoinResult(r))
                        && r.success && r.channel_id@ == uuid_bytes(pre.channels[k].0))
                },
                None => {
                    &&& post.channels == left
                    &&& res matches Ok(m) && (payload(*m, uuid) matches Some(Msg::ChanJoinResult(r))
                        && !r.success && r.channel_id@.len() == 0)
                },
            }
        }
    })
}

/// The position of client `client`, which must be connected.
fn client_pos(server: &ServerState, client: u128) -> (res: usize)
    requires
        server@.wf(),
        key_pos(server@.clients, client) is Some,
    ensures
        key_pos(server@.clients, client) == Some(res as int),
        res < server@.clients.len(),
{
    match find_key(&server.clients, client) {
        Some(i) => {
            proof {
                lemma_key_pos_unique(server@.clients, client, i as int);
            }
            i
        },
        None => {
            proof {
                let k = key_pos(server@.clients, client)->0;
                assert(server.clients@[k].0 == client);
            }
            0
        },
    }
}

/// A login: a client that is not yet logged in takes the name it asks for
/// and is logged in; the answer carries its connection identifier. A second
/// login is a protocol error ("Relogin after login !").
pub fn handle_auth(server: &mut ServerState, client: u128, uuid: u128, msg: &Auth) -> (res: Result<Box<HanMessage>, Error>)
    requires
        old(server)@.wf(),
        key_pos(old(server)@.clients, client) is Some,
    ensures
        final(server)@.wf(),
        auth_post(old(server)@, final(server)@, client, uuid, *msg, res),

{
    let ghost old_v = server@;
    let i = client_pos(server, client);
    if server.clients[i].1.client_state == ClientState::LOGGEDIN {
        return Err(protocol_error("Relogin after login !"));
    }
    server.clients[i].1.username = msg.username.clone();
    server.clients[i].1.client_state = ClientState::LOGGEDIN;
    let connection_id = uuid_as_bytes(server.clients[i].1.uuid);
    proof {
        let c = old_v.clients[i as int].1;
        assert(server@.clients =~= old_v.clients.update(
            i as int,
            (client, ClientView { username: msg.username@, client_state: ClientState::LOGGEDIN, ..c }),
        ));
    }
    Ok(Box::new(HanMessage {
        message_id: uuid_as_bytes(uuid),
        msg: Some(Msg::AuthResult(AuthResult { success: true, connection_id })),
    }))
}

/// A channel creation: unless a channel of that name exists, one is added
/// under a fresh random identifier. The answer tells whether it was added
/// and names the channel's identifier.
pub fn handle_chan_crea(server: &mut ServerState, client: u128, uuid: u128, msg: &ChannelCreate) -> (res: Result<Box<HanMessage>, Error>)
    requires
        old(server)@.wf(),
    ensures
        final(server)@.wf(),
        chan_crea_post(old(server)@, final(server)@, client, uuid, *msg, res),

{
    let ghost old_v = server@;
    let (succ, channel_id) = match find_channel_named(&server.channels, &msg.name) {
        Some(k) => (false, server.channels[k].0),
        None => {
            let c_id = uuid_new_v4();
            let ch = ChannelState { name: msg.name.clone(), users: Vec::new() };
            let ghost chv = ch@;
            assert(chv == (ChannelStateView { name: msg.name@, users: Seq::empty() }));
            match find_key(&server.channels, c_id) {
                Some(j) => {
                    proof {
                        lemma_key_pos_unique(old_v.channels, c_id, j as int);
                    }
                    server.channels.set(j, (c_id, ch));
                    assert(server@.channels =~= old_v.channels.update(j as int, (c_id, chv)));
                },
                None => {
                    proof {
                        if exists|k: int| 0 <= k < old_v.channels.len() && old_v.channels[k].0 == c_id {
                            let k = choose|k: int| 0 <= k < old_v.channels.len() && old_v.channels[k].0 == c_id;
                            assert(server.channels@[k].0 == c_id);
                        }
                    }
                    server.channels.push((c_id, ch));
                    assert(server@.channels =~= old_v.channels.push((c_id, chv)));
                },
            }
            (true, c_id)
        },
    };
    let m = Box::new(HanMessage {
        message_id: uuid_as_bytes(uuid),
        msg: Some(Msg::ChanCreaResult(ChannelCreateResult {
            name: msg.name.clone(),
            success: succ,
            channel_id: uuid_as_bytes(channel_id),
        })),
    });
    Ok(m)
}

/// A channel deletion: the first channel of that name, if any, is removed.
/// The answer tells whether one was and names its identifier (no bytes
/// when there was none).
pub fn handle_chan_del(server: &mut ServerState, client: u128, uuid: u128, msg: &ChannelDelete) -> (res: Result<Box<HanMessage>, Error>)
    requires
        old(server)@.wf(),
    ensures
        final(server)@.wf(),
        chan_del_post(old(server)@, final(server)@, client, uuid, *msg, res),

{
    let ghost old_v = server@;
    let (succ, channel_id) = match find_channel_named(&server.channels, &msg.name) {
        Some(k) => {
            let u = server.channels[k].0;
            server.channels.remove(k);
            assert(server@.channels =~= old_v.channels.remove(k as int));
            (true, uuid_as_bytes(u))
        },
        None => (false, Vec::new()),
    };
    Ok(Box::new(HanMessage {
        message_id: uuid_as_bytes(uuid),
        msg: Some(Msg::ChanDelResult(ChannelDeleteResult { name: msg.name.clone(), success: succ, channel_id })),
    }))
}

/// A status request: the answer names the client, its connection identifier
/// and the first channel it is in ("" when none).
pub fn handle_status(server: &ServerState, client: u128, uuid: u128, _msg: &Status) -> (res: Result<Box<HanMessage>, Error>)
    requires
        server@.wf(),
        key_pos(server@.clients, client) is Some,
    ensures
        status_post(server@, client, uuid, *_msg, res),

{
    let i = client_pos(server, client);
    let me = server.clients[i].1.uuid;
    let channel = match find_channel_with(&server.channels, me) {
        Some(k) => server.channels[k].1.name.clone(),
        None => String::new(),
    };
    Ok(Box::new(HanMessage {
        message_id: uuid_as_bytes(uuid),
        msg: Some(Msg::StatusResult(StatusResult {
            name: server.clients[i].1.username.clone(),
            connection_id: uuid_as_bytes(me),
            channel,
        })),
    }))
}

/// The entries of a channel status, in the order of the channel's users.
fn collect_status_entries(server: &ServerState, users: &Vec<u128>) -> (res: Vec<UserEntry>)
    requires
        server@.wf(),
    ensures
        res@.map_values(|e: UserEntry| (e.name@, e.user_id@)) == status_entries(users@, server@.clients),
{
    let mut out: Vec<UserEntry> = Vec::new();
    let mut i: usize = 0;
    assert(users@.take(0) =~= Seq::<u128>::empty());
    assert(out@.map_values(|e: UserEntry| (e.name@, e.user_id@)) =~= Seq::<(Seq<char>, Seq<u8>)>::empty());
    while i < users.len()
        invariant
            i <= users@.len(),
            server@.wf(),
            out@.map_values(|e: UserEntry| (e.name@, e.user_id@)) == status_entries(users@.take(i as int), server@.clients),
        decreases users@.len() - i,
    {
        let x = users[i];
        assert(users@.take(i + 1).drop_last() =~= users@.take(i as int));
        assert(users@.take(i + 1).last() == x);
        let ghost before = out@;
        match find_key(&server.clients, x) {
            Some(k) => {
                proof {
                    lemma_key_pos_unique(server@.clients, x, k as int);
                }
                let e = UserEntry {
                    name: server.clients[k].1.username.clone(),
                    user_id: uuid_as_bytes(server.clients[k].1.uuid),
                };
                out.push(e);
                assert(out@.map_values(|e: UserEntry| (e.name@, e.user_id@)) =~= before.map_values(
                    |e: UserEntry| (e.name@, e.user_id@),
                ).push((server@.clients[k as int].1.username, uuid_bytes(server@.clients[k as int].1.uuid))));
            },
            None => {
                proof {
                    if exists|k: int| 0 <= k < server@.clients.len() && server@.clients[k].0 == x {
                        let k = choose|k: int| 0 <= k < server@.clients.len() && server@.clients[k].0 == x;
                        assert(server.clients@[k].0 == x);
                    }
                }
            },
        }
        i = i + 1;
    }
    assert(users@.take(users@.len() as int) =~= users@);
    out
}

/// A channel status request: for the first channel of that name, the answer
/// lists the connected clients among its users (name and identifier, in
/// the channel's order), and names the channel and its identifier; when
/// there is no such channel, all is empty.
pub fn handle_chan_status(server: &ServerState, client: u128, uuid: u128, msg: &ChannelStatus) -> (res: Result<Box<HanMessage>, Error>)
    requires
        server@.wf(),
    ensures
        chan_status_post(server@, client, uuid, *msg, res),

{
    match find_channel_named(&server.channels, &msg.name) {
        Some(k) => {
            let user = collect_status_entries(server, &server.channels[k].1.users);
            Ok(Box::new(HanMessage {
                message_id: uuid_as_bytes(uuid),
                msg: Some(Msg::ChanStatusResult(ChannelStatusResult {
                    user,
                    name: server.channels[k].1.name.clone(),
                    channel_id: uuid_as_bytes(server.channels[k].0),
                })),
            }))
        },
        None => Ok(Box::new(HanMessage {
            message_id: uuid_as_bytes(uuid),
            msg: Some(Msg::ChanStatusResult(ChannelStatusResult {
                user: Vec::new(),
                name: String::new(),
                channel_id: Vec::new(),
            })),
        })),
    }
}

/// Takes client `me` out of the users of channel `k`.
fn leave_channel(server: &mut ServerState, k: usize, me: u128)
    requires
        old(server)@.wf(),
        k < old(server).channels@.len(),
    ensures
        final(server)@.wf(),
        final(server).channels@.len() == old(server).channels@.len(),
        final(server)@.clients == old(server)@.clients,
        final(server)@.channels == old(server)@.channels.update(
            k as int,
            (old(server)@.channels[k as int].0, ChannelStateView {
                users: seq_set_remove(old(server)@.channels[k as int].1.users, me),
                ..old(server)@.channels[k as int].1
            }),
        ),
{
    let ghost old_v = server@;
    set_remove(&mut server.channels[k].1.users, me);
    assert(server@.channels =~= old_v.channels.update(
        k as int,
        (old_v.channels[k as int].0, ChannelStateView {
            users: seq_set_remove(old_v.channels[k as int].1.users, me),
            ..old_v.channels[k as int].1
        }),
    ));
    assert forall|a: int, b: int| 0 <= a < server@.channels.len() && 0 <= b < server@.channels.len()
        && server@.channels[a].0 == server@.channels[b].0 implies a == b by {
        assert(server@.channels[a].0 == old_v.channels[a].0);
        assert(server@.channels[b].0 == old_v.channels[b].0);
    }
}

/// A part: the client leaves the first channel it is in. The answer names
/// that channel and its identifier, or says that there was none.
pub fn handle_chan_part(server: &mut ServerState, client: u128, uuid: u128, _msg: &ChannelPart) -> (res: Result<Box<HanMessage>, Error>)
    requires
        old(server)@.wf(),
        key_pos(old(server)@.clients, client) is Some,
    ensures
        final(server)@.wf(),
        chan_part_post(old(server)@, final(server)@, client, uuid, *_msg, res),

{
    let ghost old_v = server@;
    let i = client_pos(server, client);
    let me = server.clients[i].1.uuid;
    match find_channel_with(&server.channels, me) {
        Some(k) => {
            leave_channel(server, k, me);
            assert(server@.channels[k as int].1.name == old_v.channels[k as int].1.name);
            assert(server@.channels[k as int].0 == old_v.channels[k as int].0);
            let name = server.channels[k].1.name.clone();
            let id = server.channels[k].0;
            Ok(Box::new(HanMessage {
                message_id: uuid_as_bytes(uuid),
                msg: Some(Msg::ChanPartResult(ChannelPartResult {
                    name,
                    channel_id: uuid_as_bytes(id),
                    success: true,
                })),
            }))
        },
        None => Ok(Box::new(HanMessage {
            message_id: uuid_as_bytes(uuid),
            msg: Some(Msg::ChanPartResult(ChannelPartResult {
                name: String::new(),
                channel_id: Vec::new(),
                success: false,
            })),
        })),
    }
}

/// A channel list request: the answer lists every channel, in table order,
/// by name and identifier.
pub fn handle_chan_lst(server: &ServerState, client: u128, uuid: u128, _msg: &ChannelList) -> (res: Result<Box<HanMessage>, Error>)
    ensures
        chan_lst_post(server@, client, uuid, *_msg, res),

{
    let mut channel: Vec<ChannelListentry> = Vec::new();
    let mut i: usize = 0;
    while i < server.channels.len()
        invariant
            i <= server.channels@.len(),
            channel@.map_values(|e: ChannelListentry| (e.name@, e.channel_id@))
                == server@.channels.take(i as int).map_values(|c: (u128, ChannelStateView)| (c.1.name, uuid_bytes(c.0))),
        decreases server.channels@.len() - i,
    {
        let ghost before = channel@;
        channel.push(ChannelListentry {
            channel_id: uuid_as_bytes(server.channels[i].0),
            name: server.channels[i].1.name.clone(),
        });
        assert(server@.channels.take(i + 1) =~= server@.channels.take(i as int).push(server@.channels[i as int]));
        assert(channel@.map_values(|e: ChannelListentry| (e.name@, e.channel_id@)) =~= before.map_values(
            |e: ChannelListentry| (e.name@, e.channel_id@),
        ).push((server@.channels[i as int].1.name, uuid_bytes(server@.channels[i as int].0))));
        i = i + 1;
    }
    assert(server@.channels.take(server@.channels.len() as int) =~= server@.channels);
    Ok(Box::new(HanMessage {
        message_id: uuid_as_bytes(uuid),
        msg: Some(Msg::ChanLstResult(ChannelListResult { channel })),
    }))
}

/// A join: a logged-in client leaves every channel and enters the first
/// channel of that name, if there is one. The answer tells whether it
/// entered one and names its identifier. A client that is not logged in
/// gets a protocol error ("Not Logged in").
pub fn handle_chan_join(server: &mut ServerState, client: u128, uuid: u128, msg: &ChannelJoin) -> (res: Result<Box<HanMessage>, Error>)
    requires
        old(server)@.wf(),
        key_pos(old(server)@.clients, client) is Some,
    ensures
        final(server)@.wf(),
        chan_join_post(old(server)@, final(server)@, client, uuid, *msg, res),

{
    let ghost old_v = server@;
    let i = client_pos(server, client);
    if server.clients[i].1.client_state == ClientState::CONNECTED {
        return Err(protocol_error("Not Logged in"));
    }
    let me = server.clients[i].1.uuid;
    let result = enter_only(server, me, &msg.name);
    Ok(Box::new(HanMessage { message_id: uuid_as_bytes(uuid), msg: Some(Msg::ChanJoinResult(result)) }))
}

/// Takes `me` out of every channel and puts it into the first channel named
/// `name`, if there is one.
fn enter_only(server: &mut ServerState, me: u128, name: &String) -> (res: ChannelJoinResult)
    requires
        old(server)@.wf(),
    ensures
        final(server)@.wf(),
        final(server)@.clients == old(server)@.clients,
        ({
            let left = remove_from_all(old(server)@.channels, me);
            match first_channel_named(old(server)@.channels, name@) {
                Some(k) => {
                    &&& final(server)@.channels == left.update(
                        k,
                        (left[k].0, ChannelStateView { users: seq_set_insert(left[k].1.users, me), ..left[k].1 }),
                    )
                    &&& res.success && res.channel_id@ == uuid_bytes(old(server)@.channels[k].0)
                },
                None => {
                    &&& final(server)@.channels == left
                    &&& !res.success && res.channel_id@.len() == 0
                },
            }
        }),
{
    let ghost old_v = server@;
    server.leave_all_channels(me);
    let ghost left = server@.channels;
    proof {
        assert forall|a: int| 0 <= a < left.len() implies #[trigger] left[a].1.name == old_v.channels[a].1.name by {}
        lemma_first_named_same_names(left, old_v.channels, name@);
    }
    let result = match find_channel_named(&server.channels, name) {
        Some(k) => {
            set_insert(&mut server.channels[k].1.users, me);
            let id = server.channels[k].0;
            assert(server@.channels =~= left.update(
                k as int,
                (left[k as int].0, ChannelStateView { users: seq_set_insert(left[k as int].1.users, me), ..left[k as int].1 }),
            ));
            ChannelJoinResult { success: true, channel_id: uuid_as_bytes(id) }
        },
        None => ChannelJoinResult { success: false, channel_id: Vec::new() },
    };
    proof {
        assert forall|a: int| 0 <= a < server@.channels.len() implies #[trigger] server@.channels[a].0 == old_v.channels[a].0 by {}
        lemma_same_keys_unique(server@.channels, old_v.channels);
    }
    result
}

/// Tables with the same keys at the same places are keyed alike.
proof fn lemma_same_keys_unique(a: Seq<(u128, ChannelStateView)>, b: Seq<(u128, ChannelStateView)>)
    requires
        a.len() == b.len(),
        forall|i: int| 0 <= i < a.len() ==> #[trigger] a[i].0 == b[i].0,
        crate::idset::keys_unique(b),
    ensures
        crate::idset::keys_unique(a),
{
    assert forall|x: int, y: int| 0 <= x < a.len() && 0 <= y < a.len() && a[x].0 == a[y].0 implies x == y by {
        assert(a[x].0 == b[x].0);
        assert(a[y].0 == b[y].0);
    }
}

/// Channel lists with the same names at the same places have the same first
/// channel of a name.
proof fn lemma_first_named_same_names(a: Seq<(u128, ChannelStateView)>, b: Seq<(u128, ChannelStateView)>, name: Seq<char>)
    requires
        a.len() == b.len(),
        forall|i: int| 0 <= i < a.len() ==> #[trigger] a[i].1.name == b[i].1.name,
    ensures
        first_channel_named(a, name) == first_channel_named(b, name),
{
    if exists|i: int| 0 <= i < a.len() && a[i].1.name == name {
        let i = choose|i: int| 0 <= i < a.len() && a[i].1.name == name;
        assert(b[i].1.name == name);
        let ma = first_channel_named(a, name)->0;
        let mb = first_channel_named(b, name)->0;
        lemma_first_named_is_min(a, name);
        lemma_first_named_is_min(b, name);
        if ma < mb {
            assert(a[ma].1.name == b[ma].1.name);
        } else if mb < ma {
            assert(a[mb].1.name == b[mb].1.name);
        }
    } else {
        if exists|i: int| 0 <= i < b.len() && b[i].1.name == name {
            let i = choose|i: int| 0 <= i < b.len() && b[i].1.name == name;
            assert(a[i].1.name == name);
        }
    }
}

/// The first channel of a name has that name, and no earlier one has.
pub(crate) proof fn lemma_first_named_is_min(a: Seq<(u128, ChannelStateView)>, name: Seq<char>)
    requires
        exists|i: int| 0 <= i < a.len() && a[i].1.name == name,
    ensures
        first_channel_named(a, name) is Some,
        0 <= first_channel_named(a, name)->0 < a.len(),
        a[first_channel_named(a, name)->0].1.name == name,
        forall|j: int| 0 <= j < first_channel_named(a, name)->0 ==> a[j].1.name != name,
{
    let w = choose|i: int| 0 <= i < a.len() && a[i].1.name == name;
    lemma_named_min_exists(a, name, w);
}

/// Below any channel of a name there is a first one of that name.
proof fn lemma_named_min_exists(a: Seq<(u128, ChannelStateView)>, name: Seq<char>, w: int)
    requires
        0 <= w < a.len(),
        a[w].1.name == name,
    ensures
        exists|m: int| 0 <= m < a.len() && a[m].1.name == name && forall|j: int| 0 <= j < m ==> a[j].1.name != name,
    decreases w,
{
    if exists|j: int| 0 <= j < w && a[j].1.name == name {
        let j = choose|j: int| 0 <= j < w && a[j].1.name == name;
        lemma_named_min_exists(a, name, j);
    } else {
        assert(0 <= w < a.len() && a[w].1.name == name && forall|j: int| 0 <= j < w ==> a[j].1.name != name);
    }
}

/// A message the server does not take: a protocol error ("Illegal Message").
pub fn handle_illegal_msg(_client: u128, _uuid: u128, _message: &str) -> (res: Result<Box<HanMessage>, Error>)
    ensures
        res matches Err(Error::ProtocolError(m)) && m@ == "Illegal Message"@,
{
    Err(protocol_error("Illegal Message"))
}

/// Answers a message of client `client`: a message whose identifier is not
/// sixteen bytes is a protocol error ("Illegal UUID"); requests go to their
/// handler; answers, events and empty messages are illegal.
pub fn multiplex(server: &mut ServerState, client: u128, data: &HanMessage) -> (res: Result<Box<HanMessage>, Error>)
    requires
        old(server)@.wf(),
        key_pos(old(server)@.clients, client) is Some,
    ensures
        final(server)@.wf(),
        data.message_id@.len() != 16 ==> {
            &&& res matches Err(Error::ProtocolError(m)) && m@ == "Illegal UUID"@
            &&& final(server)@ == old(server)@
        },
        data.message_id@.len() == 16 ==> ({
            let uuid = try_uuid_spec(data.message_id@)->0;
            let pre = old(server)@;
            let post = final(server)@;
            match data.msg {
                Some(Msg::Auth(m)) => auth_post(pre, post, client, uuid, m, res),
                Some(Msg::ChanCrea(m)) => chan_crea_post(pre, post, client, uuid, m, res),
                Some(Msg::ChanDel(m)) => chan_del_post(pre, post, client, uuid, m, res),
                Some(Msg::ChanJoin(m)) => chan_join_post(pre, post, client, uuid, m, res),
                Some(Msg::ChanPart(m)) => chan_part_post(pre, post, client, uuid, m, res),
                Some(Msg::ChanLst(m)) => post == pre && chan_lst_post(pre, client, uuid, m, res),
                Some(Msg::ChanStatus(m)) => post == pre && chan_status_post(pre, client, uuid, m, res),
                Some(Msg::Status(m)) => post == pre && status_post(pre, client, uuid, m, res),
                _ => {
                    &&& res matches Err(Error::ProtocolError(e)) && e@ == "Illegal Message"@
                    &&& post == pre
                },
            }
        }),
{
    let uuid = match uuid_from_slice(data.message_id.as_slice()) {
        None => return Err(protocol_error("Illegal UUID")),
        Some(id) => id,
    };
    proof {
        let w = choose|w: u128| uuid_bytes(w) == data.message_id@;
        crate::ids::lemma_uuid_bytes_injective(w, uuid);
    }
    match &data.msg {
        Some(Msg::Auth(m)) => handle_auth(server, client, uuid, m),
        Some(Msg::ChanCrea(m)) => handle_chan_crea(server, client, uuid, m),
        Some(Msg::ChanDel(m)) => handle_chan_del(server, client, uuid, m),
        Some(Msg::ChanJoin(m)) => handle_chan_join(server, client, uuid, m),
        Some(Msg::ChanPart(m)) => handle_chan_part(server, client, uuid, m),
        Some(Msg::ChanLst(m)) => handle_chan_lst(server, client, uuid, m),
        Some(Msg::ChanStatus(m)) => handle_chan_status(server, client, uuid, m),
        Some(Msg::Status(m)) => handle_status(server, client, uuid, m),
        Some(_) => handle_illegal_msg(client, uuid, "Illegal Message"),
        None => handle_illegal_msg(client, uuid, "Empty message"),
    }
}

impl MessageParser {
    /// Looks at the bytes buffered so far: `Ok(None)` asks for more bytes;
    /// `Ok(Some(header))` says that a whole message follows the first ten
    /// bytes.
    pub fn decode_frame(&mut self, src: &[u8]) -> (res: Result<Option<StreamHeader>, Error>)
        ensures
            match frame_decision(src@, MAGIC) {
                Ok(None) => res == Ok::<Option<StreamHeader>, Error>(None),
                Ok(Some((m, l))) => res == Ok::<Option<StreamHeader>, Error>(Some(StreamHeader { magic: m, length: l })),
                Err(FrameError::Decode(e)) => res == Err::<Option<StreamHeader>, Error>(Error::ProtobufError(e)),
                Err(FrameError::BadMagic) => res matches Err(Error::ProtocolError(m)) && m@ == "MAGIC is gone !"@,
            },
    {
        match decode_frame(src, MAGIC) {
            Ok(None) => Ok(None),
            Ok(Some((m, l))) => Ok(Some(StreamHeader { magic: m, length: l })),
            Err(FrameError::Decode(e)) => Err(Error::ProtobufError(e)),
            Err(FrameError::BadMagic) => Err(protocol_error("MAGIC is gone !")),
        }
    }

    /// Appends the header of a message whose encoding is `body_len` bytes
    /// long; the length field holds `body_len` cut to 32 bits.
    pub fn encode_header(&mut self, body_len: usize, dst: &mut Vec<u8>)
        ensures
            final(dst)@ == old(dst)@ + header_bytes(MAGIC, body_len as u32),
    {
        encode_header(MAGIC, #[verifier::truncate] (body_len as u32), dst);
    }
}

} // verus!
