//! What a connection's handlers do with the messages it receives.

use vstd::prelude::*;
use vstd::string::StringExecFns;
use crate::framing::{decode_frame, encode_header, frame_decision, header_bytes, FrameError};
use crate::hanashite_message::protos::{opt_uuid_bytes, to_data, to_data_opt, try_uuid, try_uuid_spec, MAGIC_HEADER};
use crate::hanashite_server::error::{internal_error, Error};
use crate::ids::{uuid_bytes, uuid_new_v4};
use crate::idset::{find_key, key_pos, lemma_key_pos_unique, seq_set_insert, seq_set_remove};
use super::super::protos::hanmessage::{
    Auth, AuthResult, ChannelCreate, ChannelCreateResult, ChannelDelete, ChannelDeleteResult, HanMessage, StreamHeader,
};
use super::super::protos::hanmessage::han_message::Msg;
use super::{add_role, drop_role, permitted, Channel, ChannelView, ConnectionView, Role, RoleView, Server, ServerView};

verus! {

/// Codec of the control stream.
pub struct HanMessageCodec();

impl HanMessageCodec {
    /// Looks at the bytes buffered so far: `Ok(None)` asks for more bytes;
    /// `Ok(Some(header))` says that a whole message follows the first ten
    /// bytes. A wrong magic number is an internal error ("MAGIC is gone !").
    pub fn decode_frame(&mut self, src: &[u8]) -> (res: Result<Option<StreamHeader>, Error>)
        ensures
            match frame_decision(src@, MAGIC_HEADER) {
                Ok(None) => res == Ok::<Option<StreamHeader>, Error>(None),
                Ok(Some((m, l))) => res == Ok::<Option<StreamHeader>, Error>(Some(StreamHeader { magic: m, length: l })),
                Err(FrameError::Decode(e)) => res == Err::<Option<StreamHeader>, Error>(Error::ProtobufError(e)),
                Err(FrameError::BadMagic) => res matches Err(Error::InternalError(m)) && m@ == "MAGIC is gone !"@,
            },
    {
        match decode_frame(src, MAGIC_HEADER) {
            Ok(None) => Ok(None),
            Ok(Some((m, l))) => Ok(Some(StreamHeader { magic: m, length: l })),
            Err(FrameError::Decode(e)) => Err(Error::ProtobufError(e)),
            Err(FrameError::BadMagic) => Err(internal_error("MAGIC is gone !")),
        }
    }

    /// Appends the header of a message whose encoding is `body_len` bytes
    /// long; the length field holds `body_len` cut to 32 bits.
    pub fn encode_header(&mut self, body_len: usize, dst: &mut Vec<u8>)
        ensures
            final(dst)@ == old(dst)@ + header_bytes(MAGIC_HEADER, body_len as u32),
    {
        encode_header(MAGIC_HEADER, #[verifier::truncate] (body_len as u32), dst);
    }
}

/// The handlers of one connection.
pub struct ClientConnection {
    pub connection_id: u128,
}

/// The position of the channel named `name`.
pub open spec fn channel_named(chs: Seq<ChannelView>, name: Seq<char>) -> Option<int> {
    if exists|i: int| 0 <= i < chs.len() && chs[i].channel_name == name {
        Some(choose|i: int| 0 <= i < chs.len() && chs[i].channel_name == name)
    } else {
        None
    }
}

/// Whether a connection other than the one at `i` goes by `name`.
pub open spec fn name_taken(conns: Seq<(u128, ConnectionView)>, i: int, name: Seq<char>) -> bool {
    exists|j: int| 0 <= j < conns.len() && j != i && #[trigger] conns[j].1.user_name == name
}

/// The roles after a successful login: a user, no longer before the login.
pub open spec fn logged_in_roles(roles: Seq<RoleView>) -> Seq<RoleView> {
    seq_set_remove(seq_set_insert(roles, RoleView::User), RoleView::PreAuth)
}

/// What `handle_auth` promises.
pub open spec fn auth_post(pre: ServerView, post: ServerView, connection_id: u128, message_id: Option<u128>, msg: Auth, res: Result<Box<HanMessage>, Error>) -> bool {
    &&& post.channels == pre.channels
    &&& ({
        let i = key_pos(pre.connections, connection_id)->0;
        let c = pre.connections[i].1;
        let success = !name_taken(pre.connections, i, msg.username@);
        if !c.roles.contains(RoleView::PreAuth) {
            res == Err::<Box<HanMessage>, Error>(Error::PermissionDenied) && post == pre
        } else {
            &&& post.connections == if success {
                pre.connections.update(
                    i,
                    (connection_id, ConnectionView {
                        user_name: msg.username@,
                        roles: logged_in_roles(c.roles),
                        ..c
                    }),
                )
            } else {
                pre.connections
            }
            &&& res matches Ok(m) && m.message_id@ == opt_uuid_bytes(message_id)
                && (m.msg matches Some(Msg::AuthResult(r)) && r.success == success
                && r.connection_id@ == uuid_bytes(c.connection_id))
        }
    })
}

/// What `handle_chan_crea` promises.
pub open spec fn chan_crea_post(pre: ServerView, post: ServerView, connection_id: u128, message_id: Option<u128>, msg: ChannelCreate, res: Result<Box<HanMessage>, Error>) -> bool {
    &&& post.connections == pre.connections
    &&& ({
        let c = pre.connections[key_pos(pre.connections, connection_id)->0].1;
        if !permitted(c.roles, RoleView::User) {
            res == Err::<Box<HanMessage>, Error>(Error::PermissionDenied) && post == pre
        } else {
            match channel_named(pre.channels, msg.name@) {
                Some(k) => {
                    &&& post == pre
                    &&& res matches Ok(m) && m.message_id@ == opt_uuid_bytes(message_id)
                        && (m.msg matches Some(Msg::ChanCreaResult(r)) && !r.success && r.name@ == msg.name@
                        && r.channel_id@ == uuid_bytes(pre.channels[k].channel_id))
                },
                None => {
                    &&& res matches Ok(m) && m.message_id@ == opt_uuid_bytes(message_id)
                        && (m.msg matches Some(Msg::ChanCreaResult(r)) && r.success && r.name@ == msg.name@
                        && exists|id: u128| r.channel_id@ == uuid_bytes(id)
                            && post.channels == pre.channels.push(ChannelView {
                                channel_id: id,
                                channel_name: msg.name@,
                                connections: Seq::empty(),
                                private: false,
                                silent: false,
                            }))
                },
            }
        }
    })
}

/// What `handle_chan_del` promises.
pub open spec fn chan_del_post(pre: ServerView, post: ServerView, connection_id: u128, message_id: Option<u128>, msg: ChannelDelete, res: Result<Box<HanMessage>, Error>) -> bool {
    &&& post.connections == pre.connections
    &&& ({
        let c = pre.connections[key_pos(pre.connections, connection_id)->0].1;
        if !permitted(c.roles, RoleView::User) {
            res == Err::<Box<HanMessage>, Error>(Error::PermissionDenied) && post == pre
        } else {
            match channel_named(pre.channels, msg.name@) {
                Some(k) => {
                    &&& post.channels == pre.channels.remove(k)
                    &&& res matches Ok(m) && m.message_id@ == opt_uuid_bytes(message_id)
                        && (m.msg matches Some(Msg::ChanDelResult(r)) && r.success && r.name@ == msg.name@
                        && r.channel_id@ == uuid_bytes(pre.channels[k].channel_id))
                },
                None => {
                    &&& post == pre
                    &&& res matches Ok(m) && m.message_id@ == opt_uuid_bytes(message_id)
                        && (m.msg matches Some(Msg::ChanDelResult(r)) && !r.success && r.name@ == msg.name@
                        && r.channel_id@.len() == 0)
                },
            }
        }
    })
}

/// Finds the channel named `name`.
fn find_channel(server: &Server, name: &String) -> (res: Option<usize>)
    requires
        server@.wf(),
    ensures
        res == (match channel_named(server@.channels, name@) {
            Some(i) => Some(i as usize),
            None => None::<usize>,
        }),
        res matches Some(i) ==> i < server@.channels.len() && channel_named(server@.channels, name@) == Some(i as int),
        res is None ==> channel_named(server@.channels, name@) is None,
{
    let ghost cv = server@.channels;
    let mut i: usize = 0;
    while i < server.channels.len()
        invariant
            i <= server.channels@.len(),
            cv == server@.channels,
            server@.wf(),
            forall|j: int| 0 <= j < i ==> cv[j].channel_name != name@,
        decreases server.channels@.len() - i,
    {
        if server.channels[i].channel_name == *name {
            proof {
                assert(cv[i as int].channel_name == name@);
                let m = choose|m: int| 0 <= m < cv.len() && cv[m].channel_name == name@;
                assert(cv[m].channel_name == cv[i as int].channel_name);
            }
            return Some(i);
        }
        assert(cv[i as int].channel_name != name@);
        i = i + 1;
    }
    None
}

impl ClientConnection {
    /// The position of this connection, which must be registered.
    fn position(&self, server: &Server) -> (res: usize)
        requires
            server@.wf(),
            key_pos(server@.connections, self.connection_id) is Some,
        ensures
            key_pos(server@.connections, self.connection_id) == Some(res as int),
            res < server@.connections.len(),
    {
        match find_key(&server.connections, self.connection_id) {
            Some(i) => {
                proof {
                    lemma_key_pos_unique(server@.connections, self.connection_id, i as int);
                }
                i
            },
            None => {
                proof {
                    let k = key_pos(server@.connections, self.connection_id)->0;
                    assert(server.connections@[k].0 == self.connection_id);
                }
                0
            },
        }
    }

    /// Whether a connection other than the one at `i` goes by `name`.
    fn other_has_name(server: &Server, i: usize, name: &String) -> (res: bool)
        ensures
            res == name_taken(server@.connections, i as int, name@),
    {
        let ghost cv = server@.connections;
        let mut j: usize = 0;
        while j < server.connections.len()
            invariant
                j <= server.connections@.len(),
                cv == server@.connections,
                forall|k: int| 0 <= k < j && k != i ==> cv[k].1.user_name != name@,
            decreases server.connections@.len() - j,
        {
            if j != i && server.connections[j].1.user_name == *name {
                assert(cv[j as int].1.user_name == name@);
                return true;
            }
            j = j + 1;
        }
        false
    }

    /// A message the handlers do not take: an internal error whose text is
    /// "Illegal message: " followed by `message`.
    pub fn handle_illegal_msg(&self, _message_id: &Option<u128>, message: &str) -> (res: Result<Box<HanMessage>, Error>)
        ensures
            res matches Err(e) && (e matches Error::InternalError(m) && m@ == "Illegal message: "@ + message@),
    {
        let mut text = "Illegal message: ".to_owned();
        text.append(message);
        Err(Error::InternalError(text))
    }

    /// A login: only a connection before its login may log in; it takes the
    /// name unless another connection goes by it, and then becomes a user.
    /// The answer tells whether it succeeded and carries the connection's
    /// identifier.
    pub fn handle_auth(&self, server: &mut Server, message_id: &Option<u128>, msg: &Auth) -> (res: Result<Box<HanMessage>, Error>)
        requires
            old(server)@.wf(),
            key_pos(old(server)@.connections, self.connection_id) is Some,
        ensures
            final(server)@.wf(),
            final(server).config == old(server).config,
            auth_post(old(server)@, final(server)@, self.connection_id, *message_id, *msg, res),
    {
        let ghost old_v = server@;
        let i = self.position(server);
        if !super::has_role(&server.connections[i].1.roles, &Role::PreAuth) {
            return Err(Error::PermissionDenied);
        }
        let success = !Self::other_has_name(server, i, &msg.username);
        if success {
            server.connections[i].1.user_name = msg.username.clone();
            add_role(&mut server.connections[i].1.roles, Role::User);
            drop_role(&mut server.connections[i].1.roles, &Role::PreAuth);
            proof {
                let c = old_v.connections[i as int].1;
                assert(server@.connections =~= old_v.connections.update(
                    i as int,
                    (self.connection_id, ConnectionView { user_name: msg.username@, roles: logged_in_roles(c.roles), ..c }),
                ));
                assert(old_v.connections[i as int].0 == self.connection_id);
                assert forall|a: int, b: int| 0 <= a < server@.connections.len() && 0 <= b < server@.connections.len()
                    && server@.connections[a].0 == server@.connections[b].0 implies a == b by {
                    assert(server@.connections[a].0 == old_v.connections[a].0);
                    assert(server@.connections[b].0 == old_v.connections[b].0);
                }
            }
        }
        assert(server@.channels == old_v.channels);
        let connection_id = to_data(&server.connections[i].1.connection_id);
        Ok(Box::new(HanMessage {
            message_id: to_data_opt(message_id),
            msg: Some(Msg::AuthResult(AuthResult { success, connection_id })),
        }))
    }

    /// A channel creation by a user: unless a channel of that name exists,
    /// one is added under a fresh random identifier. The answer tells whether
    /// it was added and names the channel's identifier.
    pub fn handle_chan_crea(&self, server: &mut Server, message_id: &Option<u128>, msg: &ChannelCreate) -> (res: Result<Box<HanMessage>, Error>)
        requires
            old(server)@.wf(),
            key_pos(old(server)@.connections, self.connection_id) is Some,
        ensures
            final(server)@.wf(),
            final(server).config == old(server).config,
            chan_crea_post(old(server)@, final(server)@, self.connection_id, *message_id, *msg, res),
    {
        let ghost old_v = server@;
        let i = self.position(server);
        if server.connections[i].1.check_permission(&Role::User).is_err() {
            return Err(Error::PermissionDenied);
        }
        let (succ, channel_id) = match find_channel(server, &msg.name) {
            Some(k) => (false, server.channels[k].channel_id),
            None => {
                let channel_id = uuid_new_v4();
                let ch = Channel {
                    channel_id,
                    connections: Vec::new(),
                    silent: false,
                    private: false,
                    channel_name: msg.name.clone(),
                };
                let ghost chv = ch@;
                server.channels.push(ch);
                proof {
                    assert(chv.connections =~= Seq::<u128>::empty());
                    assert(server@.channels =~= old_v.channels.push(chv));
                    assert forall|a: int, b: int| 0 <= a < server@.channels.len() && 0 <= b < server@.channels.len()
                        && server@.channels[a].channel_name == server@.channels[b].channel_name implies a == b by {
                        if a < old_v.channels.len() && b == old_v.channels.len() {
                            assert(old_v.channels[a].channel_name == msg.name@);
                        }
                        if b < old_v.channels.len() && a == old_v.channels.len() {
                            assert(old_v.channels[b].channel_name == msg.name@);
                        }
                    }
                }
                (true, channel_id)
            },
        };
        let cid = to_data(&channel_id);
        assert(cid@ == uuid_bytes(channel_id));
        Ok(Box::new(HanMessage {
            message_id: to_data_opt(message_id),
            msg: Some(Msg::ChanCreaResult(ChannelCreateResult {
                name: msg.name.clone(),
                success: succ,
                channel_id: cid,
            })),
        }))
    }

    /// A channel deletion by a user: the channel of that name, if any, is
    /// removed. The answer tells whether one was and names its identifier
    /// (no bytes when there was none).
    pub fn handle_chan_del(&self, server: &mut Server, message_id: &Option<u128>, msg: &ChannelDelete) -> (res: Result<Box<HanMessage>, Error>)
        requires
            old(server)@.wf(),
            key_pos(old(server)@.connections, self.connection_id) is Some,
        ensures
            final(server)@.wf(),
            final(server).config == old(server).config,
            chan_del_post(old(server)@, final(server)@, self.connection_id, *message_id, *msg, res),
    {
        let ghost old_v = server@;
        let i = self.position(server);
        if server.connections[i].1.check_permission(&Role::User).is_err() {
            return Err(Error::PermissionDenied);
        }
        let (succ, channel_id) = match find_channel(server, &msg.name) {
            Some(k) => {
                let ch = server.channels.remove(k);
                proof {
                    assert(server@.channels =~= old_v.channels.remove(k as int));
                    assert forall|a: int, b: int| 0 <= a < server@.channels.len() && 0 <= b < server@.channels.len()
                        && server@.channels[a].channel_name == server@.channels[b].channel_name implies a == b by {
                        let a0 = if a < k { a } else { a + 1 };
                        let b0 = if b < k { b } else { b + 1 };
                        assert(server@.channels[a] == old_v.channels[a0]);
                        assert(server@.channels[b] == old_v.channels[b0]);
                    }
                }
                (true, Some(ch.channel_id))
            },
            None => (false, None),
        };
        Ok(Box::new(HanMessage {
            message_id: to_data_opt(message_id),
            msg: Some(Msg::ChanDelResult(ChannelDeleteResult {
                name: msg.name.clone(),
                success: succ,
                channel_id: to_data_opt(&channel_id),
            })),
        }))
    }

    /// Answers a received message: logins, channel creations and deletions
    /// are handled; a message that is not a request, or an empty one, is
    /// illegal. Joins, parts, lists and status requests have no handler.
    pub fn process_message(&self, server: &mut Server, msg: &HanMessage) -> (res: Result<Box<HanMessage>, Error>)
        requires
            old(server)@.wf(),
            key_pos(old(server)@.connections, self.connection_id) is Some,
            !(msg.msg matches Some(Msg::ChanJoin(_))),
            !(msg.msg matches Some(Msg::ChanPart(_))),
            !(msg.msg matches Some(Msg::ChanLst(_))),
            !(msg.msg matches Some(Msg::ChanStatus(_))),
            !(msg.msg matches Some(Msg::Status(_))),
        ensures
            final(server)@.wf(),
            final(server).config == old(server).config,
            match msg.msg {
                Some(Msg::Auth(m)) => auth_post(old(server)@, final(server)@, self.connection_id, try_uuid_spec(msg.message_id@), m, res),
                Some(Msg::ChanCrea(m)) => chan_crea_post(old(server)@, final(server)@, self.connection_id, try_uuid_spec(msg.message_id@), m, res),
                Some(Msg::ChanDel(m)) => chan_del_post(old(server)@, final(server)@, self.connection_id, try_uuid_spec(msg.message_id@), m, res),
                Some(_) => final(server)@ == old(server)@ && (res matches Err(e)
                    && (e matches Error::InternalError(m) && m@ == "Illegal message: "@ + "Illegal Message Received"@)),
                None => final(server)@ == old(server)@ && (res matches Err(e)
                    && (e matches Error::InternalError(m) && m@ == "Illegal message: "@ + "Empty message"@)),
            },
    {
        let message_id = try_uuid(&msg.message_id);
        match &msg.msg {
            Some(Msg::Auth(m)) => self.handle_auth(server, &message_id, m),
            Some(Msg::ChanCrea(m)) => self.handle_chan_crea(server, &message_id, m),
            Some(Msg::ChanDel(m)) => self.handle_chan_del(server, &message_id, m),
            Some(_) => self.handle_illegal_msg(&message_id, "Illegal Message Received"),
            None => self.handle_illegal_msg(&message_id, "Empty message"),
        }
    }
}

} // verus!
