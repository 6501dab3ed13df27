//! Properties of the handlers that span several messages: a login happens
//! once and grants the user's permission, and a channel created under a new
//! name and then deleted leaves the channels as they were.

use vstd::prelude::*;
use crate::idset::{lemma_seq_set_insert_contains, lemma_seq_set_remove_contains, seq_set_insert};
use crate::hanashite_server::error::Error;
use crate::idset::key_pos;
use super::super::protos::hanmessage::{Auth, HanMessage};
use super::super::protos::hanmessage::han_message::Msg;
use super::tcp::{auth_post, channel_named, logged_in_roles};
use super::{permitted, ChannelView, RoleView, ServerView};

verus! {

/// After a login the connection holds the user's permission and is no
/// longer before its login, so a second login is refused.
pub proof fn lemma_login_grants_user(roles: Seq<RoleView>)
    ensures
        !logged_in_roles(roles).contains(RoleView::PreAuth),
        logged_in_roles(roles).contains(RoleView::User),
        permitted(logged_in_roles(roles), RoleView::User),
{
    lemma_seq_set_insert_contains(roles, RoleView::User, RoleView::User);
    lemma_seq_set_insert_contains(roles, RoleView::User, RoleView::PreAuth);
    lemma_seq_set_remove_contains(seq_set_insert(roles, RoleView::User), RoleView::PreAuth, RoleView::PreAuth);
    lemma_seq_set_remove_contains(seq_set_insert(roles, RoleView::User), RoleView::PreAuth, RoleView::User);
}

/// A channel created under a name no channel has is the one that name
/// finds, and deleting it gives back the channels as they were.
pub proof fn lemma_create_then_delete(chs: Seq<ChannelView>, id: u128, name: Seq<char>)
    requires
        channel_named(chs, name) is None,
    ensures
        ({
            let created = chs.push(ChannelView {
                channel_id: id,
                channel_name: name,
                connections: Seq::empty(),
                private: false,
                silent: false,
            });
            &&& channel_named(created, name) == Some(chs.len() as int)
            &&& created.remove(chs.len() as int) == chs
        }),
{
    let created = chs.push(ChannelView {
        channel_id: id,
        channel_name: name,
        connections: Seq::empty(),
        private: false,
        silent: false,
    });
    let n = chs.len() as int;
    assert(created[n].channel_name == name);
    let k = channel_named(created, name)->0;
    assert(0 <= k < created.len() && created[k].channel_name == name);
    if k < n {
        assert(created[k] == chs[k]);
    }
    assert(created.remove(n) =~= chs);
}

/// A login before authentication succeeds exactly when no other
/// connection, wherever it stands in the table, goes by the asked name;
/// after a success the connection goes by that name and no other does,
/// and after a refusal nothing has changed.
pub proof fn lemma_login_name_held_once(pre: ServerView, post: ServerView, connection_id: u128, message_id: Option<u128>, msg: Auth, res: Result<Box<HanMessage>, Error>)
    requires
        key_pos(pre.connections, connection_id) is Some,
        pre.connections[key_pos(pre.connections, connection_id)->0].1.roles.contains(RoleView::PreAuth),
        auth_post(pre, post, connection_id, message_id, msg, res),
    ensures
        res matches Ok(m) && (m.msg matches Some(Msg::AuthResult(r)) && ({
            let i = key_pos(pre.connections, connection_id)->0;
            &&& r.success <==> (forall|j: int| 0 <= j < pre.connections.len() && j != i
                ==> #[trigger] pre.connections[j].1.user_name != msg.username@)
            &&& post.connections.len() == pre.connections.len()
            &&& r.success ==> {
                &&& post.connections[i].1.user_name == msg.username@
                &&& forall|j: int| 0 <= j < post.connections.len() && j != i
                    ==> #[trigger] post.connections[j].1.user_name != msg.username@
            }
            &&& !r.success ==> post == pre
        })),
{
    let i = key_pos(pre.connections, connection_id)->0;
    let m = res->Ok_0;
    let r = m.msg->Some_0->AuthResult_0;
    if r.success {
        assert forall|j: int| 0 <= j < post.connections.len() && j != i
            implies #[trigger] post.connections[j].1.user_name != msg.username@ by {
            assert(post.connections[j] == pre.connections[j]);
        }
    }
}

} // verus!
