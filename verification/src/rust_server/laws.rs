//! Properties of the control handlers that span several messages: a client
//! is in at most one channel, a join puts it into exactly the channel it
//! names, and what a join, a creation or a login does can be undone or is
//! not repeated.

use vstd::prelude::*;
use crate::idset::{
    key_pos, lemma_key_pos_unique, lemma_seq_set_insert_contains, lemma_seq_set_remove_absent,
    lemma_seq_set_remove_contains, seq_set_insert, seq_set_remove,
};
use crate::hanashite_server::server::table_put;
use crate::rust_hanashite::protos::hanmessage::{
    ChannelListentry, UserEntry, Auth, ChannelCreate, ChannelDelete, ChannelJoin, ChannelList, ChannelPart, ChannelStatus, HanMessage,
};
use crate::rust_hanashite::protos::hanmessage::han_message::Msg;
use super::clienthandler::{
    chan_lst_post, chan_status_post, status_entries,
    auth_post, chan_crea_post, chan_del_post, chan_join_post, chan_part_post, lemma_first_named_is_min, payload,
    ClientState,
};
use super::controlserver::{
    first_channel_named, first_channel_with, remove_from_all, single_membership, ChannelStateView, ClientView, StateView,
};
use super::util::Error;
use crate::framing::{decode_header_spec, header_bytes, lemma_header_roundtrip};
use super::clienthandler::MAGIC;

verus! {

/// Where only channel `k` holds `user`, the first channel with `user` is `k`.
proof fn lemma_first_with_only(chs: Seq<(u128, ChannelStateView)>, user: u128, k: int)
    requires
        0 <= k < chs.len(),
        forall|j: int| 0 <= j < chs.len() ==> (#[trigger] chs[j].1.users.contains(user) <==> j == k),
    ensures
        first_channel_with(chs, user) == Some(k),
{
    assert(chs[k].1.users.contains(user));
    assert(forall|j: int| 0 <= j < k ==> !chs[j].1.users.contains(user));
    let m = first_channel_with(chs, user)->0;
    assert(chs[m].1.users.contains(user));
}

/// Who is in channel `j` after a successful join of client `me`: `me` in the
/// joined channel `k` only, every other client where it was.
proof fn lemma_join_members(pre: StateView, post: StateView, me: u128, k: int)
    requires
        0 <= k < pre.channels.len(),
        post.channels == ({
            let left = remove_from_all(pre.channels, me);
            left.update(k, (left[k].0, ChannelStateView { users: seq_set_insert(left[k].1.users, me), ..left[k].1 }))
        }),
    ensures
        post.channels.len() == pre.channels.len(),
        forall|j: int, u: u128| 0 <= j < post.channels.len() ==>
            (#[trigger] post.channels[j].1.users.contains(u) <==> if u == me { j == k } else { pre.channels[j].1.users.contains(u) }),
{
    let left = remove_from_all(pre.channels, me);
    assert forall|j: int, u: u128| 0 <= j < post.channels.len() implies
        (#[trigger] post.channels[j].1.users.contains(u) <==> if u == me { j == k } else { pre.channels[j].1.users.contains(u) }) by {
        lemma_seq_set_remove_contains(pre.channels[j].1.users, me, u);
        assert(left[j].1.users == seq_set_remove(pre.channels[j].1.users, me));
        if j == k {
            lemma_seq_set_insert_contains(left[k].1.users, me, u);
        }
    }
}

/// A successful join puts the client into the channel it names and takes it
/// out of every other.
pub proof fn lemma_join_single_channel(pre: StateView, post: StateView, client: u128, uuid: u128, msg: ChannelJoin, res: Result<Box<HanMessage>, Error>)
    requires
        key_pos(pre.clients, client) is Some,
        pre.clients[key_pos(pre.clients, client)->0].1.client_state == ClientState::LOGGEDIN,
        first_channel_named(pre.channels, msg.name@) is Some,
        chan_join_post(pre, post, client, uuid, msg, res),
    ensures
        ({
            let me = pre.clients[key_pos(pre.clients, client)->0].1.uuid;
            let k = first_channel_named(pre.channels, msg.name@)->0;
            &&& forall|j: int| 0 <= j < post.channels.len() ==> (#[trigger] post.channels[j].1.users.contains(me) <==> j == k)
            &&& first_channel_with(post.channels, me) == Some(k)
        }),
{
    let me = pre.clients[key_pos(pre.clients, client)->0].1.uuid;
    let k = first_channel_named(pre.channels, msg.name@)->0;
    lemma_first_named_is_min(pre.channels, msg.name@);
    lemma_join_members(pre, post, me, k);
    assert forall|j: int| 0 <= j < post.channels.len() implies (#[trigger] post.channels[j].1.users.contains(me) <==> j == k) by {
        assert(post.channels[j].1.users.contains(me) <==> if me == me { j == k } else { pre.channels[j].1.users.contains(me) });
    }
    lemma_first_with_only(post.channels, me, k);
}

/// A join keeps every client in at most one channel.
pub proof fn lemma_join_keeps_single_membership(pre: StateView, post: StateView, client: u128, uuid: u128, msg: ChannelJoin, res: Result<Box<HanMessage>, Error>)
    requires
        key_pos(pre.clients, client) is Some,
        single_membership(pre.channels),
        chan_join_post(pre, post, client, uuid, msg, res),
    ensures
        single_membership(post.channels),
{
    let c = pre.clients[key_pos(pre.clients, client)->0].1;
    let me = c.uuid;
    if c.client_state == ClientState::LOGGEDIN {
        match first_channel_named(pre.channels, msg.name@) {
            Some(k) => {
                lemma_first_named_is_min(pre.channels, msg.name@);
                lemma_join_members(pre, post, me, k);
                assert forall|i: int, j: int, u: u128|
                    0 <= i < post.channels.len() && 0 <= j < post.channels.len() && #[trigger] post.channels[i].1.users.contains(u)
                        && #[trigger] post.channels[j].1.users.contains(u) implies i == j by {
                    if u != me {
                        assert(pre.channels[i].1.users.contains(u));
                        assert(pre.channels[j].1.users.contains(u));
                    }
                }
            },
            None => {
                let left = remove_from_all(pre.channels, me);
                assert forall|i: int, j: int, u: u128|
                    0 <= i < post.channels.len() && 0 <= j < post.channels.len() && #[trigger] post.channels[i].1.users.contains(u)
                        && #[trigger] post.channels[j].1.users.contains(u) implies i == j by {
                    lemma_seq_set_remove_contains(pre.channels[i].1.users, me, u);
                    lemma_seq_set_remove_contains(pre.channels[j].1.users, me, u);
                    assert(pre.channels[i].1.users.contains(u));
                    assert(pre.channels[j].1.users.contains(u));
                }
            },
        }
    }
}

/// A part keeps every client in at most one channel.
pub proof fn lemma_part_keeps_single_membership(pre: StateView, post: StateView, client: u128, uuid: u128, msg: ChannelPart, res: Result<Box<HanMessage>, Error>)
    requires
        key_pos(pre.clients, client) is Some,
        single_membership(pre.channels),
        chan_part_post(pre, post, client, uuid, msg, res),
    ensures
        single_membership(post.channels),
{
    let me = pre.clients[key_pos(pre.clients, client)->0].1.uuid;
    match first_channel_with(pre.channels, me) {
        Some(k) => {
            assert forall|i: int, j: int, u: u128|
                0 <= i < post.channels.len() && 0 <= j < post.channels.len() && #[trigger] post.channels[i].1.users.contains(u)
                    && #[trigger] post.channels[j].1.users.contains(u) implies i == j by {
                lemma_seq_set_remove_contains(pre.channels[k].1.users, me, u);
                assert(pre.channels[i].1.users.contains(u));
                assert(pre.channels[j].1.users.contains(u));
            }
        },
        None => {},
    }
}

/// A channel creation keeps every client in at most one channel.
pub proof fn lemma_create_keeps_single_membership(pre: StateView, post: StateView, client: u128, uuid: u128, msg: ChannelCreate, res: Result<Box<HanMessage>, Error>)
    requires
        single_membership(pre.channels),
        chan_crea_post(pre, post, client, uuid, msg, res),
    ensures
        single_membership(post.channels),
{
    if first_channel_named(pre.channels, msg.name@) is None {
        let m = res->Ok_0;
        let r = payload(*m, uuid)->0->ChanCreaResult_0;
        let c = choose|c: u128| r.channel_id@ == crate::ids::uuid_bytes(c)
            && #[trigger] post.channels == table_put(pre.channels, c, ChannelStateView { name: msg.name@, users: Seq::empty() });
        let fresh = ChannelStateView { name: msg.name@, users: Seq::empty() };
        assert(post.channels == table_put(pre.channels, c, fresh));
        assert forall|i: int, j: int, u: u128|
            0 <= i < post.channels.len() && 0 <= j < post.channels.len() && #[trigger] post.channels[i].1.users.contains(u)
                && #[trigger] post.channels[j].1.users.contains(u) implies i == j by {
            assert(!fresh.users.contains(u));
            match key_pos(pre.channels, c) {
                Some(p) => {
                    assert(i != p && j != p);
                    assert(pre.channels[i].1.users.contains(u));
                    assert(pre.channels[j].1.users.contains(u));
                },
                None => {
                    assert(i < pre.channels.len() && j < pre.channels.len());
                    assert(pre.channels[i].1.users.contains(u));
                    assert(pre.channels[j].1.users.contains(u));
                },
            }
        }
    }
}

/// A channel deletion keeps every client in at most one channel.
pub proof fn lemma_delete_keeps_single_membership(pre: StateView, post: StateView, client: u128, uuid: u128, msg: ChannelDelete, res: Result<Box<HanMessage>, Error>)
    requires
        single_membership(pre.channels),
        chan_del_post(pre, post, client, uuid, msg, res),
    ensures
        single_membership(post.channels),
{
    match first_channel_named(pre.channels, msg.name@) {
        Some(k) => {
            lemma_first_named_is_min(pre.channels, msg.name@);
            assert forall|i: int, j: int, u: u128|
                0 <= i < post.channels.len() && 0 <= j < post.channels.len() && #[trigger] post.channels[i].1.users.contains(u)
                    && #[trigger] post.channels[j].1.users.contains(u) implies i == j by {
                let pi = if i < k { i } else { i + 1 };
                let pj = if j < k { j } else { j + 1 };
                assert(post.channels[i] == pre.channels[pi]);
                assert(post.channels[j] == pre.channels[pj]);
                assert(pre.channels[pi].1.users.contains(u));
                assert(pre.channels[pj].1.users.contains(u));
            }
        },
        None => {},
    }
}

/// A client that joined a channel and then parted is in no channel, and the
/// part succeeds and names the joined channel.
pub proof fn lemma_join_then_part(
    s0: StateView,
    s1: StateView,
    s2: StateView,
    client: u128,
    uuid1: u128,
    uuid2: u128,
    join: ChannelJoin,
    part: ChannelPart,
    res1: Result<Box<HanMessage>, Error>,
    res2: Result<Box<HanMessage>, Error>,
)
    requires
        key_pos(s0.clients, client) is Some,
        s0.clients[key_pos(s0.clients, client)->0].1.client_state == ClientState::LOGGEDIN,
        first_channel_named(s0.channels, join.name@) is Some,
        chan_join_post(s0, s1, client, uuid1, join, res1),
        chan_part_post(s1, s2, client, uuid2, part, res2),
    ensures
        ({
            let me = s0.clients[key_pos(s0.clients, client)->0].1.uuid;
            let k = first_channel_named(s0.channels, join.name@)->0;
            &&& forall|j: int| 0 <= j < s2.channels.len() ==> !(#[trigger] s2.channels[j].1.users.contains(me))
            &&& res2 matches Ok(m) && (payload(*m, uuid2) matches Some(Msg::ChanPartResult(r))
                && r.success && r.name@ == s0.channels[k].1.name)
        }),
{
    let me = s0.clients[key_pos(s0.clients, client)->0].1.uuid;
    let k = first_channel_named(s0.channels, join.name@)->0;
    lemma_join_single_channel(s0, s1, client, uuid1, join, res1);
    lemma_first_named_is_min(s0.channels, join.name@);
    assert(s1.clients == s0.clients);
    assert(s1.channels[k].1.name == s0.channels[k].1.name);
    lemma_seq_set_remove_contains(s1.channels[k].1.users, me, me);
    assert forall|j: int| 0 <= j < s2.channels.len() implies !(#[trigger] s2.channels[j].1.users.contains(me)) by {
        if j != k {
            assert(s2.channels[j] == s1.channels[j]);
            assert(s1.channels[j].1.users.contains(me) <==> j == k);
        }
    }
}

/// Creating a channel under a new name and then deleting that name gives
/// back the channels as they were, when the fresh identifier was not
/// already a channel's (the creation then adds a channel).
pub proof fn lemma_create_then_delete(
    s0: StateView,
    s1: StateView,
    s2: StateView,
    client: u128,
    uuid1: u128,
    uuid2: u128,
    create: ChannelCreate,
    delete: ChannelDelete,
    res1: Result<Box<HanMessage>, Error>,
    res2: Result<Box<HanMessage>, Error>,
)
    requires
        first_channel_named(s0.channels, create.name@) is None,
        delete.name@ == create.name@,
        chan_crea_post(s0, s1, client, uuid1, create, res1),
        s1.channels.len() == s0.channels.len() + 1,
        chan_del_post(s1, s2, client, uuid2, delete, res2),
    ensures
        s2.channels == s0.channels,
        s2.clients == s0.clients,
{
    let name = create.name@;
    let m = res1->Ok_0;
    let r = payload(*m, uuid1)->0->ChanCreaResult_0;
    let fresh = ChannelStateView { name: name, users: Seq::empty() };
    let c = choose|c: u128| r.channel_id@ == crate::ids::uuid_bytes(c)
        && #[trigger] s1.channels == table_put(s0.channels, c, ChannelStateView { name: create.name@, users: Seq::empty() });
    assert(s1.channels == table_put(s0.channels, c, fresh));
    assert(key_pos(s0.channels, c) is None);
    assert(s1.channels == s0.channels.push((c, fresh)));
    let n = s0.channels.len() as int;
    assert(s1.channels[n].1.name == name);
    assert forall|j: int| 0 <= j < n implies s1.channels[j].1.name != name by {
        assert(s1.channels[j] == s0.channels[j]);
    }
    lemma_first_named_is_min(s1.channels, name);
    assert(first_channel_named(s1.channels, name) == Some(n));
    assert(s2.channels =~= s0.channels);
}

/// A client that logged in cannot log in again: the second login is refused
/// and changes nothing.
pub proof fn lemma_login_once(
    s0: StateView,
    s1: StateView,
    s2: StateView,
    client: u128,
    uuid1: u128,
    uuid2: u128,
    first: Auth,
    second: Auth,
    res1: Result<Box<HanMessage>, Error>,
    res2: Result<Box<HanMessage>, Error>,
)
    requires
        s0.wf(),
        key_pos(s0.clients, client) is Some,
        auth_post(s0, s1, client, uuid1, first, res1),
        auth_post(s1, s2, client, uuid2, second, res2),
    ensures
        res2 matches Err(Error::ProtocolError(m)) && m@ == "Relogin after login !"@,
        s2 == s1,
{
    let i = key_pos(s0.clients, client)->0;
    assert(s0.clients[i].0 == client);
    assert(s1.clients[i].0 == client);
    assert forall|a: int, b: int| 0 <= a < s1.clients.len() && 0 <= b < s1.clients.len()
        && s1.clients[a].0 == s1.clients[b].0 implies a == b by {
        assert(s1.clients[a].0 == s0.clients[a].0);
        assert(s1.clients[b].0 == s0.clients[b].0);
    }
    lemma_key_pos_unique(s1.clients, client, i);
}

/// A client that connects and then disconnects leaves the server as it
/// was, when it was neither known nor in a channel before.
pub proof fn lemma_connect_then_disconnect(pre: StateView, uuid: u128)
    requires
        pre.wf(),
        key_pos(pre.clients, uuid) is None,
        forall|j: int| 0 <= j < pre.channels.len() ==> !(#[trigger] pre.channels[j].1.users.contains(uuid)),
    ensures
        ({
            let joined = table_put(
                pre.clients,
                uuid,
                ClientView { username: Seq::empty(), uuid: uuid, client_state: ClientState::CONNECTED, udp_socket: None },
            );
            &&& key_pos(joined, uuid) == Some(pre.clients.len() as int)
            &&& joined.remove(pre.clients.len() as int) == pre.clients
            &&& remove_from_all(pre.channels, uuid) == pre.channels
        }),
{
    let fresh = ClientView { username: Seq::empty(), uuid: uuid, client_state: ClientState::CONNECTED, udp_socket: None };
    let joined = pre.clients.push((uuid, fresh));
    assert(table_put(pre.clients, uuid, fresh) == joined);
    let n = pre.clients.len() as int;
    assert forall|j: int| 0 <= j < n implies joined[j].0 != uuid by {
        assert(joined[j] == pre.clients[j]);
        if pre.clients[j].0 == uuid {
            assert(key_pos(pre.clients, uuid) is Some);
        }
    }
    assert forall|a: int, b: int| 0 <= a < joined.len() && 0 <= b < joined.len() && joined[a].0 == joined[b].0 implies a == b by {
        if a < n {
            assert(joined[a] == pre.clients[a]);
        }
        if b < n {
            assert(joined[b] == pre.clients[b]);
        }
    }
    lemma_key_pos_unique(joined, uuid, n);
    assert(joined.remove(n) =~= pre.clients);
    let left = remove_from_all(pre.channels, uuid);
    assert forall|j: int| 0 <= j < pre.channels.len() implies left[j] == pre.channels[j] by {
        lemma_seq_set_remove_absent(pre.channels[j].1.users, uuid);
    }
    assert(left =~= pre.channels);
}

/// Where some channel holds `user`, a first one does.
proof fn lemma_first_with_exists(chs: Seq<(u128, ChannelStateView)>, user: u128, i: int)
    requires
        0 <= i < chs.len(),
        chs[i].1.users.contains(user),
    ensures
        exists|m: int| 0 <= m < chs.len() && chs[m].1.users.contains(user)
            && forall|j: int| 0 <= j < m ==> !chs[j].1.users.contains(user),
    decreases i,
{
    if exists|j: int| 0 <= j < i && chs[j].1.users.contains(user) {
        let j = choose|j: int| 0 <= j < i && chs[j].1.users.contains(user);
        lemma_first_with_exists(chs, user, j);
    } else {
        assert(forall|j: int| 0 <= j < i ==> !chs[j].1.users.contains(user));
    }
}

/// Whether no two channels share a name.
pub open spec fn names_distinct(chs: Seq<(u128, ChannelStateView)>) -> bool {
    forall|i: int, j: int|
        0 <= i < chs.len() && 0 <= j < chs.len() && #[trigger] chs[i].1.name == #[trigger] chs[j].1.name ==> i == j
}

/// A channel creation keeps channel names distinct: a name that is taken is
/// refused, and a new channel under a fresh name either is added or, if its
/// identifier was taken, replaces the channel that had it.
pub proof fn lemma_create_keeps_names_distinct(pre: StateView, post: StateView, client: u128, uuid: u128, msg: ChannelCreate, res: Result<Box<HanMessage>, Error>)
    requires
        names_distinct(pre.channels),
        chan_crea_post(pre, post, client, uuid, msg, res),
    ensures
        names_distinct(post.channels),
{
    if first_channel_named(pre.channels, msg.name@) is None {
        let m = res->Ok_0;
        let r = payload(*m, uuid)->0->ChanCreaResult_0;
        let c = choose|c: u128| r.channel_id@ == crate::ids::uuid_bytes(c)
            && #[trigger] post.channels == table_put(pre.channels, c, ChannelStateView { name: msg.name@, users: Seq::empty() });
        let fresh = ChannelStateView { name: msg.name@, users: Seq::empty() };
        assert(post.channels == table_put(pre.channels, c, fresh));
        assert forall|j: int| 0 <= j < pre.channels.len() implies pre.channels[j].1.name != msg.name@ by {
            if pre.channels[j].1.name == msg.name@ {
                assert(exists|i: int| 0 <= i < pre.channels.len() && pre.channels[i].1.name == msg.name@);
                lemma_first_named_is_min(pre.channels, msg.name@);
            }
        }
        assert forall|i: int, j: int|
            0 <= i < post.channels.len() && 0 <= j < post.channels.len() && #[trigger] post.channels[i].1.name
                == #[trigger] post.channels[j].1.name implies i == j by {
            match key_pos(pre.channels, c) {
                Some(p) => {
                    if i != p && j != p {
                        assert(pre.channels[i].1.name == pre.channels[j].1.name);
                    } else if i == p && j != p {
                        assert(post.channels[j] == pre.channels[j]);
                    } else if j == p && i != p {
                        assert(post.channels[i] == pre.channels[i]);
                    }
                },
                None => {
                    let n = pre.channels.len() as int;
                    if i < n && j < n {
                        assert(post.channels[i] == pre.channels[i]);
                        assert(post.channels[j] == pre.channels[j]);
                    } else if i < n {
                        assert(post.channels[i] == pre.channels[i]);
                    } else if j < n {
                        assert(post.channels[j] == pre.channels[j]);
                    }
                },
            }
        }
    }
}

/// A channel deletion keeps channel names distinct.
pub proof fn lemma_delete_keeps_names_distinct(pre: StateView, post: StateView, client: u128, uuid: u128, msg: ChannelDelete, res: Result<Box<HanMessage>, Error>)
    requires
        names_distinct(pre.channels),
        chan_del_post(pre, post, client, uuid, msg, res),
    ensures
        names_distinct(post.channels),
{
    match first_channel_named(pre.channels, msg.name@) {
        Some(k) => {
            lemma_first_named_is_min(pre.channels, msg.name@);
            assert forall|i: int, j: int|
                0 <= i < post.channels.len() && 0 <= j < post.channels.len() && #[trigger] post.channels[i].1.name
                    == #[trigger] post.channels[j].1.name implies i == j by {
                let pi = if i < k { i } else { i + 1 };
                let pj = if j < k { j } else { j + 1 };
                assert(post.channels[i] == pre.channels[pi]);
                assert(post.channels[j] == pre.channels[pj]);
            }
        },
        None => {},
    }
}

/// Joins and parts keep channel names distinct: they change who is in a
/// channel, never its name.
pub proof fn lemma_join_part_keep_names_distinct(
    pre: StateView,
    mid: StateView,
    post: StateView,
    client: u128,
    uuid1: u128,
    uuid2: u128,
    join: ChannelJoin,
    part: ChannelPart,
    res1: Result<Box<HanMessage>, Error>,
    res2: Result<Box<HanMessage>, Error>,
)
    requires
        names_distinct(pre.channels),
        chan_join_post(pre, mid, client, uuid1, join, res1),
        chan_part_post(mid, post, client, uuid2, part, res2),
    ensures
        names_distinct(mid.channels),
        names_distinct(post.channels),
{
    assert(mid.channels.len() == pre.channels.len());
    assert forall|i: int| 0 <= i < mid.channels.len() implies #[trigger] mid.channels[i].1.name == pre.channels[i].1.name by {
        let c = pre.clients[key_pos(pre.clients, client)->0].1;
        if c.client_state != ClientState::CONNECTED {
            match first_channel_named(pre.channels, join.name@) {
                Some(k) => {
                    lemma_first_named_is_min(pre.channels, join.name@);
                },
                None => {},
            }
        }
    }
    assert forall|i: int, j: int|
        0 <= i < mid.channels.len() && 0 <= j < mid.channels.len() && #[trigger] mid.channels[i].1.name
            == #[trigger] mid.channels[j].1.name implies i == j by {
        assert(pre.channels[i].1.name == pre.channels[j].1.name);
    }
    let me = mid.clients[key_pos(mid.clients, client)->0].1.uuid;
    match first_channel_with(mid.channels, me) {
        Some(k) => {
            let w = choose|i: int| 0 <= i < mid.channels.len() && mid.channels[i].1.users.contains(me);
            lemma_first_with_exists(mid.channels, me, w);
            assert forall|i: int, j: int|
                0 <= i < post.channels.len() && 0 <= j < post.channels.len() && #[trigger] post.channels[i].1.name
                    == #[trigger] post.channels[j].1.name implies i == j by {
                assert(post.channels[i].1.name == mid.channels[i].1.name);
                assert(post.channels[j].1.name == mid.channels[j].1.name);
            }
        },
        None => {},
    }
}

/// A datagram made of the header of a non-empty packet followed by the
/// packet passes the checks of `parse_msg`: it is long enough, its first ten
/// bytes read as the header with the magic number and the packet's length,
/// and that length is what follows the header, which is the packet itself.
pub proof fn lemma_datagram_accepted(packet: Seq<u8>)
    requires
        0 < packet.len() <= u32::MAX,
    ensures
        ({
            let d = header_bytes(MAGIC, packet.len() as u32) + packet;
            &&& d.len() >= 10
            &&& decode_header_spec(d.subrange(0, 10)) == Some((MAGIC, packet.len() as u32))
            &&& packet.len() == d.len() - 10
            &&& d.skip(10) == packet
        }),
{
    let h = header_bytes(MAGIC, packet.len() as u32);
    lemma_header_roundtrip(MAGIC, packet.len() as u32);
    assert(h.len() == 10);
    let d = h + packet;
    assert(d.subrange(0, 10) =~= h);
    assert(d.skip(10) =~= packet);
}

/// Each entry of a status list for the users `users` stands for one of
/// them that is a connected client: its name and the sixteen bytes of its
/// identifier.
proof fn lemma_status_entries_members(users: Seq<u128>, clients: Seq<(u128, ClientView)>, a: int)
    requires
        0 <= a < status_entries(users, clients).len(),
    ensures
        exists|u: u128, p: int|
            #![trigger users.contains(u), clients[p]]
            users.contains(u) && key_pos(clients, u) == Some(p) && 0 <= p < clients.len()
                && status_entries(users, clients)[a] == (clients[p].1.username, crate::ids::uuid_bytes(clients[p].1.uuid)),
    decreases users.len(),
{
    let d = users.drop_last();
    let r = status_entries(d, clients);
    let u = users.last();
    if a < r.len() {
        lemma_status_entries_members(d, clients, a);
        let (w, p) = choose|w: u128, p: int|
            #![trigger d.contains(w), clients[p]]
            d.contains(w) && key_pos(clients, w) == Some(p) && 0 <= p < clients.len()
                && r[a] == (clients[p].1.username, crate::ids::uuid_bytes(clients[p].1.uuid));
        let q = choose|q: int| 0 <= q < d.len() && d[q] == w;
        assert(users[q] == w);
        assert(users.contains(w));
        match key_pos(clients, u) {
            Some(k) => {
                assert(status_entries(users, clients) == r.push((clients[k].1.username, crate::ids::uuid_bytes(clients[k].1.uuid))));
            },
            None => {},
        }
        assert(status_entries(users, clients)[a] == r[a]);
    } else {
        let k = key_pos(clients, u)->0;
        assert(key_pos(clients, u) is Some);
        assert(clients[k].0 == u);
        assert(users[users.len() - 1] == u);
        assert(users.contains(u));
    }
}

/// `e` names a connected client that is a member of channel `k`, with that
/// client's name and the sixteen big-endian bytes of its identifier.
pub open spec fn lists_member(pre: StateView, k: int, e: UserEntry) -> bool {
    exists|p: int|
        #![trigger pre.clients[p]]
        0 <= p < pre.clients.len()
            && pre.channels[k].1.users.contains(pre.clients[p].0)
            && e.user_id@ == crate::ids::uuid_bytes(pre.clients[p].1.uuid)
            && e.user_id@.len() == 16
            && e.name@ == pre.clients[p].1.username
}

/// A channel status answer lists, for the first channel of the asked name,
/// only members of that channel that are connected clients, each with its
/// name and the sixteen big-endian bytes of its identifier; it names the
/// channel and carries the channel's identifier.
pub proof fn lemma_status_lists_members(pre: StateView, client: u128, uuid: u128, msg: ChannelStatus, res: Result<Box<HanMessage>, Error>)
    requires
        chan_status_post(pre, client, uuid, msg, res),
        first_channel_named(pre.channels, msg.name@) is Some,
    ensures
        res matches Ok(m) && (m.msg matches Some(Msg::ChanStatusResult(r)) && ({
            let k = first_channel_named(pre.channels, msg.name@)->0;
            &&& r.name@ == pre.channels[k].1.name
            &&& r.channel_id@ == crate::ids::uuid_bytes(pre.channels[k].0)
            &&& forall|a: int| 0 <= a < r.user@.len() ==> lists_member(pre, k, #[trigger] r.user@[a])
        })),
{
    let k = first_channel_named(pre.channels, msg.name@)->0;
    lemma_first_named_is_min(pre.channels, msg.name@);
    let m = res->Ok_0;
    assert(payload(*m, uuid) == m.msg);
    let r = m.msg->Some_0->ChanStatusResult_0;
    let users = pre.channels[k].1.users;
    let es = status_entries(users, pre.clients);
    assert(r.user@.map_values(|e: UserEntry| (e.name@, e.user_id@)) == es);
    assert forall|a: int| 0 <= a < r.user@.len() implies lists_member(pre, k, #[trigger] r.user@[a]) by {
        assert(es[a] == (r.user@[a].name@, r.user@[a].user_id@));
        lemma_status_entries_members(users, pre.clients, a);
        let (u, p) = choose|u: u128, p: int|
            #![trigger users.contains(u), pre.clients[p]]
            users.contains(u) && key_pos(pre.clients, u) == Some(p) && 0 <= p < pre.clients.len()
                && es[a] == (pre.clients[p].1.username, crate::ids::uuid_bytes(pre.clients[p].1.uuid));
        assert(pre.clients[p].0 == u);
        assert(r.user@[a].user_id@.len() == 16);
        assert(users.contains(pre.clients[p].0));
    }
}

/// A channel list answer names every channel of the server, in table
/// order, each with the sixteen big-endian bytes of its identifier.
pub proof fn lemma_list_names_channels(pre: StateView, client: u128, uuid: u128, msg: ChannelList, res: Result<Box<HanMessage>, Error>)
    requires
        chan_lst_post(pre, client, uuid, msg, res),
    ensures
        res matches Ok(m) && (m.msg matches Some(Msg::ChanLstResult(r)) && {
            &&& r.channel@.len() == pre.channels.len()
            &&& forall|a: int| 0 <= a < r.channel@.len() ==> {
                &&& (#[trigger] r.channel@[a]).name@ == pre.channels[a].1.name
                &&& r.channel@[a].channel_id@ == crate::ids::uuid_bytes(pre.channels[a].0)
                &&& r.channel@[a].channel_id@.len() == 16
            }
        }),
{
    let m = res->Ok_0;
    assert(payload(*m, uuid) == m.msg);
    let r = m.msg->Some_0->ChanLstResult_0;
    let es = r.channel@.map_values(|e: ChannelListentry| (e.name@, e.channel_id@));
    let cs = pre.channels.map_values(|c: (u128, ChannelStateView)| (c.1.name, crate::ids::uuid_bytes(c.0)));
    assert(es == cs);
    assert(es.len() == cs.len());
    assert forall|a: int| 0 <= a < r.channel@.len() implies {
        &&& (#[trigger] r.channel@[a]).name@ == pre.channels[a].1.name
        &&& r.channel@[a].channel_id@ == crate::ids::uuid_bytes(pre.channels[a].0)
        &&& r.channel@[a].channel_id@.len() == 16
    } by {
        assert(es[a] == cs[a]);
    }
}

} // verus!
