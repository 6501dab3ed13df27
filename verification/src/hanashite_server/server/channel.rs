//! Channels: joining one (and, when joining to talk, leaving the voice of
//! every other) and parting from one.

use vstd::prelude::*;
use crate::idset::{key_pos, set_contains, set_insert, set_remove, seq_set_insert, seq_set_remove};
use super::super::error::Error;
use super::{channel_names_unique, get_valid_connection, Channel, ChannelView, ConnStateView, ServerStruct, ServerView, connections_view};

verus! {

/// The outcome of a join.
#[derive(PartialEq, Eq, Debug, Clone)]
pub enum JoinStatus {
    /// Joined; the names of the other channels whose voice was left.
    Joined(Vec<String>),
    NotFound,
    PermissionDenied,
    Unknown,
}

/// The outcome of a part.
#[derive(PartialEq, Eq, Debug, Clone)]
pub enum PartStatus {
    Parted,
    NotFound,
    NotJoined,
    Unknown,
}

/// The position of the channel named `name`.
pub open spec fn channel_pos(chs: Seq<ChannelView>, name: Seq<char>) -> Option<int> {
    if exists|i: int| 0 <= i < chs.len() && chs[i].name == name {
        Some(choose|i: int| 0 <= i < chs.len() && chs[i].name == name)
    } else {
        None
    }
}

/// Whether the channel named `name` exists and carries voice.
pub open spec fn audio_enabled(chs: Seq<ChannelView>, name: Seq<char>) -> bool {
    match channel_pos(chs, name) {
        Some(i) => chs[i].audio,
        None => false,
    }
}

/// The names, in channel order, of the channels other than `name` in whose
/// voice connection `id` is.
pub open spec fn voice_elsewhere(chs: Seq<ChannelView>, name: Seq<char>, id: u128) -> Seq<Seq<char>>
    decreases chs.len(),
{
    if chs.len() == 0 {
        Seq::empty()
    } else {
        let r = voice_elsewhere(chs.drop_last(), name, id);
        if chs.last().name != name && chs.last().audio_connections.contains(id) {
            r.push(chs.last().name)
        } else {
            r
        }
    }
}

/// Channel `c` after connection `id`, joining channel `name` to talk, left
/// its voice if it is another channel.
pub open spec fn leave_voice(c: ChannelView, name: Seq<char>, id: u128) -> ChannelView {
    if c.name != name && c.audio_connections.contains(id) {
        ChannelView { audio_connections: seq_set_remove(c.audio_connections, id), ..c }
    } else {
        c
    }
}

/// The channels after connection `id` joined the channel at `t`, named
/// `name`, to talk if `audio`: it is a member there, talks there if `audio`,
/// and, if `audio`, no longer talks in any other channel.
pub open spec fn channels_after_join(chs: Seq<ChannelView>, t: int, name: Seq<char>, id: u128, audio: bool) -> Seq<ChannelView> {
    Seq::new(
        chs.len(),
        |k: int|
            if k == t {
                ChannelView {
                    connections: seq_set_insert(chs[k].connections, id),
                    audio_connections: if audio {
                        seq_set_insert(chs[k].audio_connections, id)
                    } else {
                        chs[k].audio_connections
                    },
                    ..chs[k]
                }
            } else if audio {
                leave_voice(chs[k], name, id)
            } else {
                chs[k]
            },
    )
}

/// The channels after connection `id` parted from the channel at `t`.
pub open spec fn channels_after_part(chs: Seq<ChannelView>, t: int, id: u128) -> Seq<ChannelView> {
    chs.update(
        t,
        ChannelView {
            connections: seq_set_remove(chs[t].connections, id),
            audio_connections: seq_set_remove(chs[t].audio_connections, id),
            ..chs[t]
        },
    )
}

/// The error, if any, that the connection check gives for `connection_id`.
pub open spec fn connection_check_fails(v: ServerView, connection_id: u128) -> bool {
    match key_pos(v.connections, connection_id) {
        None => true,
        Some(i) => !(v.connections[i].1.state is Connected),
    }
}

/// What the connection check answers for a connection that fails it.
pub open spec fn connection_check_error(v: ServerView, connection_id: u128, e: Error) -> bool {
    match key_pos(v.connections, connection_id) {
        None => e matches Error::InternalError(m) && m@ == "Illegal Connection used."@,
        Some(i) => e matches Error::ProtocolError(m) && m@ == "Connection not active."@,
    }
}

/// Finds the channel named `name`.
pub(crate) fn find_channel(chs: &Vec<Channel>, name: &String) -> (res: Option<usize>)
    requires
        channel_names_unique(chs@.map_values(|c: Channel| c@)),
    ensures
        res == (match channel_pos(chs@.map_values(|c: Channel| c@), name@) {
            Some(i) => Some(i as usize),
            None => None::<usize>,
        }),
        res matches Some(i) ==> i < chs@.len() && chs@[i as int].name@ == name@
            && channel_pos(chs@.map_values(|c: Channel| c@), name@) == Some(i as int),
        res is None ==> channel_pos(chs@.map_values(|c: Channel| c@), name@) is None,
{
    let ghost cv = chs@.map_values(|c: Channel| c@);
    let mut i: usize = 0;
    while i < chs.len()
        invariant
            i <= chs@.len(),
            cv == chs@.map_values(|c: Channel| c@),
            channel_names_unique(cv),
            forall|j: int| 0 <= j < i ==> cv[j].name != name@,
        decreases chs@.len() - i,
    {
        if chs[i].name == *name {
            proof {
                assert(cv[i as int].name == name@);
                let m = choose|m: int| 0 <= m < cv.len() && cv[m].name == name@;
                assert(cv[m].name == cv[i as int].name);
            }
            return Some(i);
        }
        assert(cv[i as int].name != name@);
        i = i + 1;
    }
    None
}

/// Whether the channel named `channel` exists and carries voice.
fn is_audio_enabled(channels: &Vec<Channel>, channel: &String) -> (res: bool)
    requires
        channel_names_unique(channels@.map_values(|c: Channel| c@)),
    ensures
        res == audio_enabled(channels@.map_values(|c: Channel| c@), channel@),
{
    match find_channel(channels, channel) {
        Some(i) => channels[i].audio,
        None => false,
    }
}

impl ServerStruct {
    /// Connection `connection_id`, still in the state `Connected`, joins the
    /// channel named `channel_name`, to talk there if `audio`. Talking needs
    /// a channel that carries voice; joining to talk leaves the voice of
    /// every other channel, whose names the answer lists.
    pub fn channel_join_request(&mut self, connection_id: u128, channel_name: &String, audio: bool) -> (res: Result<JoinStatus, Error>)
        requires
            old(self)@.wf(),
        ensures
            final(self)@.wf(),
            final(self).config == old(self).config,
            final(self)@.connections == old(self)@.connections,
            final(self)@.users == old(self)@.users,
            final(self)@.next_user_id == old(self)@.next_user_id,
            connection_check_fails(old(self)@, connection_id) ==> {
                &&& res matches Err(e) && connection_check_error(old(self)@, connection_id, e)
                &&& final(self)@ == old(self)@
            },
            !connection_check_fails(old(self)@, connection_id) ==> match channel_pos(old(self)@.channels, channel_name@) {
                None => res == Ok::<JoinStatus, Error>(JoinStatus::NotFound) && final(self)@ == old(self)@,
                Some(t) => if audio && !old(self)@.channels[t].audio {
                    res == Ok::<JoinStatus, Error>(JoinStatus::PermissionDenied) && final(self)@ == old(self)@
                } else {
                    &&& res matches Ok(JoinStatus::Joined(left)) && left@.map_values(|s: String| s@) == (if audio {
                        voice_elsewhere(old(self)@.channels, channel_name@, connection_id)
                    } else {
                        Seq::empty()
                    })
                    &&& final(self)@.channels == channels_after_join(old(self)@.channels, t, channel_name@, connection_id, audio)
                },
            },
    {
        let ghost old_v = self@;
        match get_valid_connection(&self.connections, connection_id) {
            Err(e) => return Err(e),
            Ok(_) => {},
        }
        let t = match find_channel(&self.channels, channel_name) {
            Some(t) => t,
            None => return Ok(JoinStatus::NotFound),
        };
        let mut left: Vec<String> = Vec::new();
        if audio {
            if !is_audio_enabled(&self.channels, channel_name) {
                return Ok(JoinStatus::PermissionDenied);
            }
            self.leave_other_voices(channel_name, connection_id, &mut left);
        }
        let ghost mid = self@;
        assert(audio ==> mid.channels == old_v.channels.map_values(|c: ChannelView| leave_voice(c, channel_name@, connection_id)));
        assert(!audio ==> mid == old_v);
        set_insert(&mut self.channels[t].connections, connection_id);
        if audio {
            set_insert(&mut self.channels[t].audio_connections, connection_id);
        }
        proof {
            let want = channels_after_join(old_v.channels, t as int, channel_name@, connection_id, audio);
            assert(self@.channels =~= want) by {
                assert(old_v.channels[t as int].name == channel_name@);
                assert(mid.channels[t as int] == old_v.channels[t as int]);
                assert forall|k: int| 0 <= k < want.len() implies self@.channels[k] == want[k] by {
                    if k != t {
                        assert(self@.channels[k] == mid.channels[k]);
                        if audio {
                            assert(mid.channels[k] == leave_voice(old_v.channels[k], channel_name@, connection_id));
                        } else {
                            assert(mid.channels[k] == old_v.channels[k]);
                        }
                    }
                }
            }
            assert forall|a: int, b: int| 0 <= a < self@.channels.len() && 0 <= b < self@.channels.len()
                && self@.channels[a].name == self@.channels[b].name implies a == b by {
                assert(self@.channels[a].name == old_v.channels[a].name);
                assert(self@.channels[b].name == old_v.channels[b].name);
            }
        }
        Ok(JoinStatus::Joined(left))
    }

    /// Takes connection `id` out of the voice of every channel not named
    /// `name`, and appends the names of those it was in to `left`.
    fn leave_other_voices(&mut self, name: &String, id: u128, left: &mut Vec<String>)
        requires
            old(self)@.wf(),
            old(left)@.len() == 0,
        ensures
            final(self).config == old(self).config,
            final(self).channels@.len() == old(self).channels@.len(),
            final(self)@ == (ServerView {
                channels: old(self)@.channels.map_values(|c: ChannelView| leave_voice(c, name@, id)),
                ..old(self)@
            }),
            final(left)@.map_values(|s: String| s@) == voice_elsewhere(old(self)@.channels, name@, id),
    {
        let ghost old_v = self@;
        let ghost chs = old_v.channels;
        let mut k: usize = 0;
        assert(chs.take(0) =~= Seq::<ChannelView>::empty());
        assert(left@.map_values(|s: String| s@) =~= Seq::<Seq<char>>::empty());
        while k < self.channels.len()
            invariant
                k <= self.channels@.len(),
                self.channels@.len() == chs.len(),
                self.config == old(self).config,
                self@.connections == old_v.connections,
                self@.users == old_v.users,
                self@.next_user_id == old_v.next_user_id,
                forall|j: int| 0 <= j < k ==> #[trigger] self@.channels[j] == leave_voice(chs[j], name@, id),
                forall|j: int| k <= j < chs.len() ==> #[trigger] self@.channels[j] == chs[j],
                left@.map_values(|s: String| s@) == voice_elsewhere(chs.take(k as int), name@, id),
            decreases chs.len() - k,
        {
            assert(chs.take(k + 1).drop_last() =~= chs.take(k as int));
            assert(self@.channels[k as int] == chs[k as int]);
            let ghost before = self@.channels;
            if self.channels[k].name != *name && set_contains(&self.channels[k].audio_connections, id) {
                let n = self.channels[k].name.clone();
                let ghost lv = left@;
                left.push(n);
                assert(left@.map_values(|s: String| s@) =~= lv.map_values(|s: String| s@).push(chs[k as int].name));
                set_remove(&mut self.channels[k].audio_connections, id);
            }
            assert forall|j: int| 0 <= j < self@.channels.len() && j != k implies #[trigger] self@.channels[j] == before[j] by {}
            k = k + 1;
        }
        assert(chs.take(chs.len() as int) =~= chs);
        assert(self@.channels =~= chs.map_values(|c: ChannelView| leave_voice(c, name@, id)));
    }

    /// Connection `connection_id`, still in the state `Connected`, parts
    /// from the channel named `channel_name`: it is neither a member nor a
    /// talker there afterwards. The answer tells whether it was a member.
    pub fn channel_part_request(&mut self, connection_id: u128, channel_name: &String) -> (res: Result<PartStatus, Error>)
        requires
            old(self)@.wf(),
        ensures
            final(self)@.wf(),
            final(self).config == old(self).config,
            connection_check_fails(old(self)@, connection_id) ==> {
                &&& res matches Err(e) && connection_check_error(old(self)@, connection_id, e)
                &&& final(self)@ == old(self)@
            },
            !connection_check_fails(old(self)@, connection_id) ==> match channel_pos(old(self)@.channels, channel_name@) {
                None => res == Ok::<PartStatus, Error>(PartStatus::NotFound) && final(self)@ == old(self)@,
                Some(t) => {
                    &&& res == Ok::<PartStatus, Error>(if old(self)@.channels[t].connections.contains(connection_id) {
                        PartStatus::Parted
                    } else {
                        PartStatus::NotJoined
                    })
                    &&& final(self)@ == (ServerView {
                        channels: channels_after_part(old(self)@.channels, t, connection_id),
                        ..old(self)@
                    })
                },
            },
    {
        let ghost old_v = self@;
        match get_valid_connection(&self.connections, connection_id) {
            Err(e) => return Err(e),
            Ok(_) => {},
        }
        let t = match find_channel(&self.channels, channel_name) {
            Some(t) => t,
            None => return Ok(PartStatus::NotFound),
        };
        set_remove(&mut self.channels[t].audio_connections, connection_id);
        let was = set_remove(&mut self.channels[t].connections, connection_id);
        proof {
            assert(self@.channels =~= channels_after_part(old_v.channels, t as int, connection_id));
            assert forall|a: int, b: int| 0 <= a < self@.channels.len() && 0 <= b < self@.channels.len()
                && self@.channels[a].name == self@.channels[b].name implies a == b by {
                assert(self@.channels[a].name == old_v.channels[a].name);
                assert(self@.channels[b].name == old_v.channels[b].name);
            }
        }
        if was {
            Ok(PartStatus::Parted)
        } else {
            Ok(PartStatus::NotJoined)
        }
    }
}

} // verus!
