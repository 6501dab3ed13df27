//! Properties of the server that span several requests: the login
//! handshake, and joining and parting channels.

use vstd::prelude::*;
use crate::crypto::{ed25519_verify, signature_well_formed};
use crate::idset::{
    key_pos, keys_unique, lemma_key_pos_unique, lemma_seq_set_insert_contains, lemma_seq_set_remove_absent,
    lemma_seq_set_remove_contains, seq_set_insert, seq_set_remove,
};
use super::auth::{first_user_with_key, user_pos, users_put};
use super::channel::{channels_after_join, channels_after_part, leave_voice, voice_elsewhere};
use super::{channel_names_unique, user_ids_unique, ChannelView, ConnStateView, ServerView};
use crate::hanashite_message::protos::hanmessage::{Auth, ChallengeResponse, HanMessage};
use crate::hanashite_message::protos::hanmessage::auth_response::{result_state_number, ResultState};
use crate::hanashite_message::protos::hanmessage::han_message::Msg;
use crate::ids::uuid_bytes;
use super::super::error::Error;
use super::super::tcp::reader::{auth_reply, challenge_reply};

verus! {

/// Where some user holds `key`, a first one does.
proof fn lemma_first_key_exists(users: Seq<(u32, Seq<u8>)>, key: Seq<u8>, i: int)
    requires
        0 <= i < users.len(),
        users[i].1 == key,
    ensures
        exists|m: int| 0 <= m < users.len() && users[m].1 == key && forall|j: int| 0 <= j < m ==> users[j].1 != key,
    decreases i,
{
    if exists|j: int| 0 <= j < i && users[j].1 == key {
        let j = choose|j: int| 0 <= j < i && users[j].1 == key;
        lemma_first_key_exists(users, key, j);
    } else {
        assert(forall|j: int| 0 <= j < i ==> users[j].1 != key);
    }
}

/// The user that a login with `key` is bound to holds `key`, and user ids
/// stay unique.
proof fn lemma_login_user_holds_key(v: ServerView, key: Seq<u8>)
    requires
        v.wf(),
    ensures
        ({
            let (uid, users, next) = v.login_user(key);
            &&& user_ids_unique(users)
            &&& user_pos(users, uid) matches Some(u) && users[u].1 == key
        }),
{
    let (uid, users, next) = v.login_user(key);
    match first_user_with_key(v.users, key) {
        Some(j) => {
            assert(exists|i: int| 0 <= i < v.users.len() && v.users[i].1 == key);
            let w = choose|i: int| 0 <= i < v.users.len() && v.users[i].1 == key;
            lemma_first_key_exists(v.users, key, w);
            assert(0 <= j < v.users.len() && v.users[j].1 == key);
            assert(users == v.users);
            assert(users[j].0 == uid);
            let u = user_pos(users, uid)->0;
            assert(users[u].0 == uid);
        },
        None => {
            let n = v.next_user_id;
            match user_pos(v.users, n) {
                Some(p) => {
                    let s = v.users.update(p, (n, key));
                    assert(users == s);
                    assert forall|a: int, b: int| 0 <= a < s.len() && 0 <= b < s.len() && s[a].0 == s[b].0 implies a == b by {
                        assert(s[a].0 == v.users[a].0);
                        assert(s[b].0 == v.users[b].0);
                    }
                    assert(s[p].0 == n);
                    let u = user_pos(s, n)->0;
                    assert(s[u].0 == n);
                },
                None => {
                    let s = v.users.push((n, key));
                    assert(users == s);
                    assert(s[v.users.len() as int].0 == n);
                    assert forall|a: int, b: int| 0 <= a < s.len() && 0 <= b < s.len() && s[a].0 == s[b].0 implies a == b by {
                        if a < v.users.len() {
                            assert(s[a] == v.users[a]);
                        }
                        if b < v.users.len() {
                            assert(s[b] == v.users[b]);
                        }
                    }
                    let u = user_pos(s, n)->0;
                    assert(s[u].0 == n);
                },
            }
        },
    }
}

/// The login handshake: once connection `connection_id` has asked to log in
/// with `key` and been handed the challenge `ch`, its answer `signature` is
/// accepted exactly when it is a well-formed signature of `ch` under `key`;
/// the connection is then `Authenticated`, and `Defunct` otherwise.
pub proof fn lemma_handshake(v: ServerView, connection_id: u128, name: Seq<char>, key: Seq<u8>, ch: Seq<u8>, signature: Seq<u8>)
    requires
        v.wf(),
        key_pos(v.connections, connection_id) is Some,
    ensures
        ({
            let i = key_pos(v.connections, connection_id)->0;
            let w = v.after_auth_request(i, name, key, ch);
            let ok = signature_well_formed(signature) && ed25519_verify(signature, ch, key);
            &&& w.challenge_accepted(connection_id, signature) == ok
            &&& w.after_challenge(connection_id, signature).connections[i].1.state == if ok {
                ConnStateView::Authenticated
            } else {
                ConnStateView::Defunct
            }
        }),
{
    let i = key_pos(v.connections, connection_id)->0;
    assert(v.connections[i].0 == connection_id);
    let w = v.after_auth_request(i, name, key, ch);
    lemma_login_user_holds_key(v, key);
    assert forall|a: int, b: int| 0 <= a < w.connections.len() && 0 <= b < w.connections.len()
        && w.connections[a].0 == w.connections[b].0 implies a == b by {
        assert(w.connections[a].0 == v.connections[a].0);
        assert(w.connections[b].0 == v.connections[b].0);
    }
    assert(w.connections[i].0 == connection_id);
    lemma_key_pos_unique(w.connections, connection_id, i);
}

/// Joining channel `t` to talk makes the connection a member of it and
/// leaves it talking there and in no other channel.
pub proof fn lemma_join_to_talk(chs: Seq<ChannelView>, t: int, id: u128)
    requires
        0 <= t < chs.len(),
        channel_names_unique(chs),
    ensures
        ({
            let after = channels_after_join(chs, t, chs[t].name, id, true);
            &&& after.len() == chs.len()
            &&& after[t].connections.contains(id)
            &&& forall|k: int| 0 <= k < after.len() ==> (#[trigger] after[k].audio_connections.contains(id) <==> k == t)
        }),
{
    let after = channels_after_join(chs, t, chs[t].name, id, true);
    lemma_seq_set_insert_contains(chs[t].connections, id, id);
    lemma_seq_set_insert_contains(chs[t].audio_connections, id, id);
    assert forall|k: int| 0 <= k < after.len() implies (#[trigger] after[k].audio_connections.contains(id) <==> k == t) by {
        if k != t {
            assert(chs[k].name != chs[t].name);
            lemma_seq_set_remove_contains(chs[k].audio_connections, id, id);
            assert(after[k] == leave_voice(chs[k], chs[t].name, id));
        }
    }
}

/// Joining channel `t` without talking and then parting from it gives back
/// the channels as they were, when the connection was neither a member of
/// it nor talking in it before.
pub proof fn lemma_join_then_part_restores(chs: Seq<ChannelView>, t: int, id: u128)
    requires
        0 <= t < chs.len(),
        !chs[t].connections.contains(id),
        !chs[t].audio_connections.contains(id),
    ensures
        channels_after_part(channels_after_join(chs, t, chs[t].name, id, false), t, id) == chs,
{
    let joined = channels_after_join(chs, t, chs[t].name, id, false);
    let after = channels_after_part(joined, t, id);
    let c = chs[t].connections;
    assert(seq_set_insert(c, id) == c.push(id));
    assert(c.push(id).drop_last() =~= c);
    lemma_seq_set_remove_absent(c, id);
    lemma_seq_set_remove_absent(chs[t].audio_connections, id);
    assert(seq_set_remove(c.push(id), id) == seq_set_remove(c, id));
    assert(after[t] == chs[t]);
    assert forall|k: int| 0 <= k < chs.len() implies after[k] == chs[k] by {
        if k != t {
            assert(after[k] == joined[k]);
        }
    }
    assert(after =~= chs);
}

/// A connection that joined channel `t` to talk and then parted from it is
/// no member of it and talks in no channel.
pub proof fn lemma_join_to_talk_then_part(chs: Seq<ChannelView>, t: int, id: u128)
    requires
        0 <= t < chs.len(),
        channel_names_unique(chs),
    ensures
        ({
            let after = channels_after_part(channels_after_join(chs, t, chs[t].name, id, true), t, id);
            &&& !after[t].connections.contains(id)
            &&& forall|k: int| 0 <= k < after.len() ==> !(#[trigger] after[k].audio_connections.contains(id))
        }),
{
    let joined = channels_after_join(chs, t, chs[t].name, id, true);
    let after = channels_after_part(joined, t, id);
    lemma_join_to_talk(chs, t, id);
    lemma_seq_set_remove_contains(joined[t].connections, id, id);
    lemma_seq_set_remove_contains(joined[t].audio_connections, id, id);
    assert forall|k: int| 0 <= k < after.len() implies !(#[trigger] after[k].audio_connections.contains(id)) by {
        if k != t {
            assert(after[k] == joined[k]);
            assert(joined[k].audio_connections.contains(id) <==> k == t);
        }
    }
}

/// The names that a join to talk in `name` answers are exactly those of the
/// other channels in whose voice the connection was.
pub proof fn lemma_voice_elsewhere_names(chs: Seq<ChannelView>, name: Seq<char>, id: u128, n: Seq<char>)
    ensures
        voice_elsewhere(chs, name, id).contains(n) <==> exists|k: int|
            0 <= k < chs.len() && #[trigger] chs[k].name == n && n != name && chs[k].audio_connections.contains(id),
    decreases chs.len(),
{
    if chs.len() > 0 {
        let d = chs.drop_last();
        let r = voice_elsewhere(d, name, id);
        lemma_voice_elsewhere_names(d, name, id, n);
        let last = chs.last();
        if last.name != name && last.audio_connections.contains(id) {
            crate::idset::lemma_push_contains(r, last.name, n);
        }
        if exists|k: int| 0 <= k < chs.len() && #[trigger] chs[k].name == n && n != name && chs[k].audio_connections.contains(id) {
            let k = choose|k: int| 0 <= k < chs.len() && #[trigger] chs[k].name == n && n != name && chs[k].audio_connections.contains(id);
            if k < d.len() {
                assert(d[k] == chs[k]);
            }
        }
        if exists|k: int| 0 <= k < d.len() && #[trigger] d[k].name == n && n != name && d[k].audio_connections.contains(id) {
            let k = choose|k: int| 0 <= k < d.len() && #[trigger] d[k].name == n && n != name && d[k].audio_connections.contains(id);
            assert(chs[k] == d[k]);
        }
    }
}

/// Whether the user table is in order: no public key belongs to two users,
/// and every user id is below the next id to hand out.
pub open spec fn users_in_order(v: ServerView) -> bool {
    &&& forall|a: int, b: int|
        0 <= a < v.users.len() && 0 <= b < v.users.len() && #[trigger] v.users[a].1 == #[trigger] v.users[b].1 ==> a == b
    &&& forall|a: int| 0 <= a < v.users.len() ==> #[trigger] v.users[a].0 < v.next_user_id
}

/// A login request keeps the user table in order, adds at most one user,
/// and only when no user held the key, and binds the connection to the
/// user that holds the key it logged in with. (When the next id is the
/// largest one, it wraps to 0 and the table can fall out of order, so that
/// state is left out.)
pub proof fn lemma_auth_request_users(v: ServerView, i: int, name: Seq<char>, key: Seq<u8>, ch: Seq<u8>)
    requires
        v.wf(),
        users_in_order(v),
        v.next_user_id < u32::MAX,
        0 <= i < v.connections.len(),
    ensures
        ({
            let w = v.after_auth_request(i, name, key, ch);
            &&& user_ids_unique(w.users)
            &&& users_in_order(w)
            &&& w.users.len() <= v.users.len() + 1
            &&& w.users.len() == v.users.len() + 1 ==> forall|a: int| 0 <= a < v.users.len() ==> #[trigger] v.users[a].1 != key
            &&& w.users.len() == v.users.len() + 1 ==> w.users == v.users.push((v.next_user_id, key))
            &&& w.users.len() == v.users.len() ==> w.users == v.users
            &&& user_pos(w.users, w.connections[i].1.user_id) matches Some(u) && w.users[u].1 == key
        }),
{
    let w = v.after_auth_request(i, name, key, ch);
    lemma_login_user_holds_key(v, key);
    assert(w.connections[i].1.user_id == v.login_user(key).0);
    match first_user_with_key(v.users, key) {
        Some(j) => {
            assert(w.users == v.users);
            assert(w.next_user_id == v.next_user_id);
        },
        None => {
            let n = v.next_user_id;
            assert forall|a: int| 0 <= a < v.users.len() implies #[trigger] v.users[a].1 != key by {
                if v.users[a].1 == key {
                    lemma_first_key_exists(v.users, key, a);
                }
            }
            if user_pos(v.users, n) is Some {
                let p = choose|p: int| 0 <= p < v.users.len() && v.users[p].0 == n;
                assert(v.users[p].0 < n);
            }
            let s = v.users.push((n, key));
            assert(w.users == s);
            assert(w.next_user_id == n + 1);
            assert forall|a: int, b: int|
                0 <= a < s.len() && 0 <= b < s.len() && #[trigger] s[a].1 == #[trigger] s[b].1 implies a == b by {
                if a < v.users.len() {
                    assert(s[a] == v.users[a]);
                }
                if b < v.users.len() {
                    assert(s[b] == v.users[b]);
                }
            }
            assert forall|a: int| 0 <= a < s.len() implies #[trigger] s[a].0 < n + 1 by {
                if a < v.users.len() {
                    assert(s[a] == v.users[a]);
                }
            }
        },
    }
}

/// Joining a channel without talking touches no channel's voice: every
/// channel, the joined one included, has the same talking connections as
/// before; the joined channel gains the connection as a member and keeps
/// its other members, and every other channel stays as it was.
pub proof fn lemma_join_without_voice(chs: Seq<ChannelView>, t: int, name: Seq<char>, id: u128)
    requires
        0 <= t < chs.len(),
    ensures
        ({
            let after = channels_after_join(chs, t, name, id, false);
            &&& after.len() == chs.len()
            &&& forall|k: int| 0 <= k < chs.len() ==> #[trigger] after[k].audio_connections == chs[k].audio_connections
            &&& forall|k: int| 0 <= k < chs.len() && k != t ==> #[trigger] after[k] == chs[k]
            &&& forall|x: u128| #[trigger] after[t].connections.contains(x) <==> (chs[t].connections.contains(x) || x == id)
            &&& after[t].name == chs[t].name
            &&& after[t].audio == chs[t].audio
        }),
{
    let after = channels_after_join(chs, t, name, id, false);
    assert forall|x: u128| #[trigger] after[t].connections.contains(x) <==> (chs[t].connections.contains(x) || x == id) by {
        lemma_seq_set_insert_contains(chs[t].connections, id, x);
    }
}

/// An accepted challenge response is answered with `Success`, the user id
/// of the connection and an empty text, and the answer carries back the
/// identifier of the message it answers: its sixteen bytes where there was
/// one, nothing where there was none.
pub proof fn lemma_challenge_answer_carries_id(pre: ServerView, post: ServerView, connection_id: u128, message_id: Option<u128>, msg: ChallengeResponse, res: Result<Box<HanMessage>, Error>)
    requires
        challenge_reply(pre, post, connection_id, message_id, msg, res),
        pre.challenge_accepted(connection_id, msg.signature@),
    ensures
        res matches Ok(m) && {
            &&& (message_id matches Some(u) ==> m.message_id@ == uuid_bytes(u))
            &&& (message_id is None ==> m.message_id@.len() == 0)
            &&& m.msg matches Some(Msg::AuthResponse(r)) && {
                &&& r.result == result_state_number(ResultState::Success)
                &&& r.user_id == pre.connections[key_pos(pre.connections, connection_id)->0].1.user_id
                &&& r.message@.len() == 0
            }
        },
{
}

/// Every answer to a login carries back the identifier of the message it
/// answers: its sixteen bytes where there was one, nothing where there was
/// none.
pub proof fn lemma_auth_answer_carries_id(pre: ServerView, post: ServerView, connection_id: u128, message_id: Option<u128>, msg: Auth, res: Result<Box<HanMessage>, Error>)
    requires
        auth_reply(pre, post, connection_id, message_id, msg, res),
    ensures
        res matches Ok(m) ==> {
            &&& (message_id matches Some(u) ==> m.message_id@ == uuid_bytes(u))
            &&& (message_id is None ==> m.message_id@.len() == 0)
        },
{
}

} // verus!
