//! The shared state of the server: channels and connected clients.

use vstd::prelude::*;
use crate::idset::{find_key, key_pos, keys_unique, lemma_key_pos_unique, seq_set_remove, set_remove};
use crate::ids::uuid_new_v4;
use super::clienthandler::{ClientHandle, ClientState};
pub use crate::net::PeerAddr;
use super::protos::updmessage::HanUdpMessage;
use crate::ids::{uuid_bytes, uuid_from_slice};

verus! {

/// The server itself; all its state lives in `ServerState`.
pub struct ControlServer {}

impl ControlServer {
    pub fn new() -> (res: ControlServer) {
        ControlServer {}
    }
}

/// A channel: its name and the clients in it.
#[derive(Debug, Clone, PartialEq, Eq)]
pub struct ChannelState {
    pub name: String,
    pub users: Vec<u128>,
}

/// Kinds of internal voice messages.
#[derive(Debug, Clone, Copy, PartialEq, Eq)]
pub enum UdpMessage {
    AudioPacket,
}

/// Codec of the voice packets of the first relay.
pub struct UdpMessageParser {}

/// Channels by identifier and clients by connection identifier.
pub struct ServerState {
    pub channels: Vec<(u128, ChannelState)>,
    pub clients: Vec<(u128, ClientHandle)>,
}

pub struct ChannelStateView {
    pub name: Seq<char>,
    pub users: Seq<u128>,
}

impl View for ChannelState {
    type V = ChannelStateView;

    open spec fn view(&self) -> ChannelStateView {
        ChannelStateView { name: self.name@, users: self.users@ }
    }
}

pub struct ClientView {
    pub username: Seq<char>,
    pub uuid: u128,
    pub client_state: ClientState,
    pub udp_socket: Option<PeerAddr>,
}

impl View for ClientHandle {
    type V = ClientView;

    open spec fn view(&self) -> ClientView {
        ClientView {
            username: self.username@,
            uuid: self.uuid,
            client_state: self.client_state,
            udp_socket: self.udp_socket,
        }
    }
}

/// The server state as values.
pub struct StateView {
    pub channels: Seq<(u128, ChannelStateView)>,
    pub clients: Seq<(u128, ClientView)>,
}

pub open spec fn channels_view(s: Seq<(u128, ChannelState)>) -> Seq<(u128, ChannelStateView)> {
    s.map_values(|e: (u128, ChannelState)| (e.0, e.1@))
}

pub open spec fn clients_view(s: Seq<(u128, ClientHandle)>) -> Seq<(u128, ClientView)> {
    s.map_values(|e: (u128, ClientHandle)| (e.0, e.1@))
}

impl View for ServerState {
    type V = StateView;

    open spec fn view(&self) -> StateView {
        StateView { channels: channels_view(self.channels@), clients: clients_view(self.clients@) }
    }
}

/// The position of the first channel whose users include `user`.
pub open spec fn first_channel_with(chs: Seq<(u128, ChannelStateView)>, user: u128) -> Option<int> {
    if exists|i: int| 0 <= i < chs.len() && chs[i].1.users.contains(user) {
        Some(
            choose|i: int|
                0 <= i < chs.len() && chs[i].1.users.contains(user) && forall|j: int|
                    0 <= j < i ==> !chs[j].1.users.contains(user),
        )
    } else {
        None
    }
}

/// The position of the first channel named `name`.
pub open spec fn first_channel_named(chs: Seq<(u128, ChannelStateView)>, name: Seq<char>) -> Option<int> {
    if exists|i: int| 0 <= i < chs.len() && chs[i].1.name == name {
        Some(
            choose|i: int|
                0 <= i < chs.len() && chs[i].1.name == name && forall|j: int| 0 <= j < i ==> chs[j].1.name != name,
        )
    } else {
        None
    }
}

/// Every channel with `user` taken out of its users.
pub open spec fn remove_from_all(chs: Seq<(u128, ChannelStateView)>, user: u128) -> Seq<(u128, ChannelStateView)> {
    chs.map_values(
        |e: (u128, ChannelStateView)|
            (e.0, ChannelStateView { users: seq_set_remove(e.1.users, user), ..e.1 }),
    )
}

/// Whether no client is in two channels.
pub open spec fn single_membership(chs: Seq<(u128, ChannelStateView)>) -> bool {
    forall|i: int, j: int, u: u128|
        0 <= i < chs.len() && 0 <= j < chs.len() && #[trigger] chs[i].1.users.contains(u)
            && #[trigger] chs[j].1.users.contains(u) ==> i == j
}

impl StateView {
    /// The tables are keyed: no channel identifier and no client
    /// identifier twice.
    pub open spec fn wf(self) -> bool {
        keys_unique(self.channels) && keys_unique(self.clients)
    }
}

/// Finds the first channel named `name`.
pub(crate) fn find_channel_named(chs: &Vec<(u128, ChannelState)>, name: &String) -> (res: Option<usize>)
    ensures
        res == (match first_channel_named(channels_view(chs@), name@) {
            Some(i) => Some(i as usize),
            None => None::<usize>,
        }),
        res matches Some(i) ==> i < chs@.len() && first_channel_named(channels_view(chs@), name@) == Some(i as int),
        res is None ==> first_channel_named(channels_view(chs@), name@) is None,
{
    let ghost cv = channels_view(chs@);
    let mut i: usize = 0;
    while i < chs.len()
        invariant
            i <= chs@.len(),
            cv == channels_view(chs@),
            forall|j: int| 0 <= j < i ==> cv[j].1.name != name@,
        decreases chs@.len() - i,
    {
        if chs[i].1.name == *name {
            proof {
                assert(cv[i as int].1.name == name@);
                let m = choose|m: int| 0 <= m < cv.len() && cv[m].1.name == name@
                    && forall|j: int| 0 <= j < m ==> cv[j].1.name != name@;
                if m > i {
                    assert(cv[i as int].1.name != name@);
                }
            }
            return Some(i);
        }
        assert(cv[i as int].1.name != name@);
        i = i + 1;
    }
    None
}

/// Finds the first channel whose users include `user`.
pub(crate) fn find_channel_with(chs: &Vec<(u128, ChannelState)>, user: u128) -> (res: Option<usize>)
    ensures
        res == (match first_channel_with(channels_view(chs@), user) {
            Some(i) => Some(i as usize),
            None => None::<usize>,
        }),
        res matches Some(i) ==> i < chs@.len() && first_channel_with(channels_view(chs@), user) == Some(i as int),
        res is None ==> first_channel_with(channels_view(chs@), user) is None,
{
    let ghost cv = channels_view(chs@);
    let mut i: usize = 0;
    while i < chs.len()
        invariant
            i <= chs@.len(),
            cv == channels_view(chs@),
            forall|j: int| 0 <= j < i ==> !cv[j].1.users.contains(user),
        decreases chs@.len() - i,
    {
        if crate::idset::set_contains(&chs[i].1.users, user) {
            proof {
                assert(cv[i as int].1.users.contains(user));
                let m = choose|m: int| 0 <= m < cv.len() && cv[m].1.users.contains(user)
                    && forall|j: int| 0 <= j < m ==> !cv[j].1.users.contains(user);
                if m > i {
                    assert(!cv[i as int].1.users.contains(user));
                }
            }
            return Some(i);
        }
        assert(!cv[i as int].1.users.contains(user));
        i = i + 1;
    }
    None
}

impl ServerState {
    /// A state with the channel "testchannel" under a fresh random
    /// identifier, and no clients.
    pub fn new() -> (res: ServerState)
        ensures
            res@.wf(),
            res@.clients.len() == 0,
            res@.channels.len() == 1,
            res@.channels[0].1.name == "testchannel"@,
            res@.channels[0].1.users.len() == 0,
    {
        let mut state = ServerState { channels: Vec::new(), clients: Vec::new() };
        let id = uuid_new_v4();
        state.channels.push((id, ChannelState { users: Vec::new(), name: "testchannel".to_owned() }));
        assert(state@.channels.len() == 1);
        assert(state@.clients =~= Seq::empty());
        state
    }

    /// A new connection: client `uuid` is registered, not logged in, with no
    /// name and no voice address, in place of a client with that identifier
    /// if there is one.
    pub fn connect_client(&mut self, uuid: u128)
        requires
            old(self)@.wf(),
        ensures
            final(self)@.wf(),
            final(self)@.channels == old(self)@.channels,
            final(self)@.clients == crate::hanashite_server::server::table_put(
                old(self)@.clients,
                uuid,
                ClientView { username: Seq::empty(), uuid: uuid, client_state: ClientState::CONNECTED, udp_socket: None },
            ),
    {
        let client = ClientHandle {
            username: String::new(),
            uuid,
            client_state: ClientState::CONNECTED,
            udp_socket: None,
        };
        let ghost cv = client@;
        let ghost old_v = self@;
        match find_key(&self.clients, uuid) {
            Some(i) => {
                proof {
                    lemma_key_pos_unique(old_v.clients, uuid, i as int);
                }
                self.clients.set(i, (uuid, client));
                assert(self@.clients =~= old_v.clients.update(i as int, (uuid, cv)));
                assert forall|a: int, b: int| 0 <= a < self@.clients.len() && 0 <= b < self@.clients.len()
                    && self@.clients[a].0 == self@.clients[b].0 implies a == b by {
                    assert(self@.clients[a].0 == old_v.clients[a].0);
                    assert(self@.clients[b].0 == old_v.clients[b].0);
                }
            },
            None => {
                self.clients.push((uuid, client));
                assert(self@.clients =~= old_v.clients.push((uuid, cv)));
                assert forall|a: int, b: int| 0 <= a < self@.clients.len() && 0 <= b < self@.clients.len()
                    && self@.clients[a].0 == self@.clients[b].0 implies a == b by {
                    if a < old_v.clients.len() {
                        assert(self@.clients[a] == old_v.clients[a]);
                    }
                    if b < old_v.clients.len() {
                        assert(self@.clients[b] == old_v.clients[b]);
                    }
                }
                proof {
                    if key_pos(old_v.clients, uuid) is Some {
                        let k = key_pos(old_v.clients, uuid)->0;
                        assert(old_v.clients[k].0 == uuid);
                    }
                }
            },
        }
    }

    /// Takes `user` out of the users of every channel.
    pub(crate) fn leave_all_channels(&mut self, user: u128)
        ensures
            final(self)@.channels == remove_from_all(old(self)@.channels, user),
            final(self)@.clients == old(self)@.clients,
            final(self).channels@.len() == old(self).channels@.len(),
    {
        let ghost chs = self@.channels;
        let mut k: usize = 0;
        while k < self.channels.len()
            invariant
                k <= self.channels@.len(),
                self.channels@.len() == chs.len(),
                self@.clients == old(self)@.clients,
                forall|j: int| 0 <= j < k ==> #[trigger] self@.channels[j] == remove_from_all(chs, user)[j],
                forall|j: int| k <= j < chs.len() ==> #[trigger] self@.channels[j] == chs[j],
            decreases chs.len() - k,
        {
            let ghost before = self@.channels;
            assert(before[k as int] == chs[k as int]);
            set_remove(&mut self.channels[k].1.users, user);
            assert(self@.channels[k as int].1.users == seq_set_remove(chs[k as int].1.users, user));
            assert(self@.channels[k as int].1.name == chs[k as int].1.name);
            assert(self@.channels[k as int].0 == chs[k as int].0);
            assert forall|j: int| 0 <= j < self@.channels.len() && j != k implies #[trigger] self@.channels[j] == before[j] by {}
            assert(self@.channels[k as int] == remove_from_all(chs, user)[k as int]);
            k = k + 1;
        }
        assert(self@.channels =~= remove_from_all(chs, user));
    }

    /// The end of a connection: the client leaves every channel and is
    /// forgotten.
    pub fn disconnect_client(&mut self, uuid: u128)
        requires
            old(self)@.wf(),
        ensures
            final(self)@.wf(),
            final(self)@.channels == remove_from_all(old(self)@.channels, uuid),
            final(self)@.clients == (match key_pos(old(self)@.clients, uuid) {
                Some(i) => old(self)@.clients.remove(i),
                None => old(self)@.clients,
            }),
    {
        self.leave_all_channels(uuid);
        let ghost mid = self@;
        assert(mid.channels.len() == old(self)@.channels.len());
        assert forall|a: int, b: int| 0 <= a < mid.channels.len() && 0 <= b < mid.channels.len()
            && mid.channels[a].0 == mid.channels[b].0 implies a == b by {
            assert(mid.channels[a].0 == old(self)@.channels[a].0);
            assert(mid.channels[b].0 == old(self)@.channels[b].0);
        }
        match find_key(&self.clients, uuid) {
            Some(i) => {
                proof {
                    lemma_key_pos_unique(mid.clients, uuid, i as int);
                }
                self.clients.remove(i);
                assert(self@.clients =~= mid.clients.remove(i as int));
            },
            None => {
                proof {
                    if exists|k: int| 0 <= k < mid.clients.len() && mid.clients[k].0 == uuid {
                        let k = choose|k: int| 0 <= k < mid.clients.len() && mid.clients[k].0 == uuid;
                        assert(self.clients@[k].0 == uuid);
                    }
                }
            },
        }
    }

    /// Records `addr` as the voice address of client `user_id`, if it is
    /// connected.
    pub fn register_udp_socket(&mut self, addr: &PeerAddr, user_id: u128)
        requires
            old(self)@.wf(),
        ensures
            final(self)@.wf(),
            final(self)@.channels == old(self)@.channels,
            final(self)@.clients == (match key_pos(old(self)@.clients, user_id) {
                Some(i) => old(self)@.clients.update(
                    i,
                    (user_id, ClientView { udp_socket: Some(*addr), ..old(self)@.clients[i].1 }),
                ),
                None => old(self)@.clients,
            }),
    {
        let ghost old_v = self@;
        match find_key(&self.clients, user_id) {
            Some(i) => {
                proof {
                    lemma_key_pos_unique(old_v.clients, user_id, i as int);
                }
                self.clients[i].1.udp_socket = Some(*addr);
                assert(self@.clients =~= old_v.clients.update(
                    i as int,
                    (user_id, ClientView { udp_socket: Some(*addr), ..old_v.clients[i as int].1 }),
                ));
            },
            None => {
                proof {
                    if exists|k: int| 0 <= k < old_v.clients.len() && old_v.clients[k].0 == user_id {
                        let k = choose|k: int| 0 <= k < old_v.clients.len() && old_v.clients[k].0 == user_id;
                        assert(self.clients@[k].0 == user_id);
                    }
                }
            },
        }
    }
}

/// The voice addresses of the users `users` other than `me`: those of the
/// connected clients that registered one, in the order of `users`.
pub open spec fn audio_targets(users: Seq<u128>, me: u128, clients: Seq<(u128, ClientView)>) -> Seq<PeerAddr>
    decreases users.len(),
{
    if users.len() == 0 {
        Seq::empty()
    } else {
        let r = audio_targets(users.drop_last(), me, clients);
        let u = users.last();
        if u != me && key_pos(clients, u) is Some && clients[key_pos(clients, u)->0].1.udp_socket is Some {
            r.push(clients[key_pos(clients, u)->0].1.udp_socket->0)
        } else {
            r
        }
    }
}

/// For every channel that `me` is in, in table order, the voice addresses of
/// its other users.
pub open spec fn channel_targets(chs: Seq<(u128, ChannelStateView)>, me: u128, clients: Seq<(u128, ClientView)>) -> Seq<Seq<PeerAddr>>
    decreases chs.len(),
{
    if chs.len() == 0 {
        Seq::empty()
    } else {
        let r = channel_targets(chs.drop_last(), me, clients);
        if chs.last().1.users.contains(me) {
            r.push(audio_targets(chs.last().1.users, me, clients))
        } else {
            r
        }
    }
}

/// The voice addresses of the users `users` other than `me`.
pub(crate) fn collect_targets(state: &ServerState, users: &Vec<u128>, me: u128) -> (res: Vec<PeerAddr>)
    requires
        state@.wf(),
    ensures
        res@ == audio_targets(users@, me, state@.clients),
{
    let mut out: Vec<PeerAddr> = Vec::new();
    let mut i: usize = 0;
    assert(users@.take(0) =~= Seq::<u128>::empty());
    while i < users.len()
        invariant
            i <= users@.len(),
            state@.wf(),
            out@ == audio_targets(users@.take(i as int), me, state@.clients),
        decreases users@.len() - i,
    {
        let u = users[i];
        assert(users@.take(i + 1).drop_last() =~= users@.take(i as int));
        assert(users@.take(i + 1).last() == u);
        if u != me {
            match find_key(&state.clients, u) {
                Some(k) => {
                    proof {
                        lemma_key_pos_unique(state@.clients, u, k as int);
                    }
                    if let Some(a) = state.clients[k].1.udp_socket {
                        out.push(a);
                    }
                },
                None => {
                    proof {
                        if exists|k: int| 0 <= k < state@.clients.len() && state@.clients[k].0 == u {
                            let k = choose|k: int| 0 <= k < state@.clients.len() && state@.clients[k].0 == u;
                            assert(state.clients@[k].0 == u);
                        }
                    }
                },
            }
        }
        i = i + 1;
    }
    assert(users@.take(users@.len() as int) =~= users@);
    out
}

/// For every channel that `user_id` is in, the addresses to which its voice
/// packet is forwarded.
pub fn send_channel_packet(state: &ServerState, user_id: u128) -> (res: Vec<Vec<PeerAddr>>)
    requires
        state@.wf(),
    ensures
        res@.map_values(|t: Vec<PeerAddr>| t@) == channel_targets(state@.channels, user_id, state@.clients),
{
    let mut out: Vec<Vec<PeerAddr>> = Vec::new();
    let ghost chs = state@.channels;
    let mut i: usize = 0;
    assert(chs.take(0) =~= Seq::<(u128, ChannelStateView)>::empty());
    assert(out@.map_values(|t: Vec<PeerAddr>| t@) =~= Seq::<Seq<PeerAddr>>::empty());
    while i < state.channels.len()
        invariant
            i <= state.channels@.len(),
            chs == state@.channels,
            state@.wf(),
            out@.map_values(|t: Vec<PeerAddr>| t@) == channel_targets(chs.take(i as int), user_id, state@.clients),
        decreases state.channels@.len() - i,
    {
        assert(chs.take(i + 1).drop_last() =~= chs.take(i as int));
        assert(chs.take(i + 1).last() == chs[i as int]);
        if crate::idset::set_contains(&state.channels[i].1.users, user_id) {
            let targets = collect_targets(state, &state.channels[i].1.users, user_id);
            let ghost before = out@;
            out.push(targets);
            assert(out@.map_values(|t: Vec<PeerAddr>| t@) =~= before.map_values(|t: Vec<PeerAddr>| t@).push(
                audio_targets(chs[i as int].1.users, user_id, state@.clients),
            ));
        }
        i = i + 1;
    }
    assert(chs.take(chs.len() as int) =~= chs);
    out
}

/// A voice packet of the first relay arrived from `addr`: it registers
/// `addr` as its user's voice address, and an audio frame is forwarded to the
/// other users of each of the user's channels, whose addresses are handed
/// back (`None` when there is no frame). The user identifier must be sixteen
/// bytes.
pub fn process_udp_message(state: &mut ServerState, addr: &PeerAddr, message: &HanUdpMessage) -> (res: Option<Vec<Vec<PeerAddr>>>)
    requires
        old(state)@.wf(),
        message.user_id@.len() == 16,
    ensures
        final(state)@.wf(),
        ({
            let user_id = choose|v: u128| uuid_bytes(v) == message.user_id@;
            &&& final(state)@.channels == old(state)@.channels
            &&& final(state)@.clients == (match key_pos(old(state)@.clients, user_id) {
                Some(i) => old(state)@.clients.update(
                    i,
                    (user_id, ClientView { udp_socket: Some(*addr), ..old(state)@.clients[i].1 }),
                ),
                None => old(state)@.clients,
            })
            &&& match message.audio_frame {
                None => res is None,
                Some(_) => res matches Some(t) && t@.map_values(|x: Vec<PeerAddr>| x@)
                    == channel_targets(final(state)@.channels, user_id, final(state)@.clients),
            }
        }),
{
    let user_id = match uuid_from_slice(message.user_id.as_slice()) {
        Some(u) => u,
        None => 0,
    };
    proof {
        let w = choose|v: u128| uuid_bytes(v) == message.user_id@;
        crate::ids::lemma_uuid_bytes_injective(w, user_id);
    }
    state.register_udp_socket(addr, user_id);
    if message.audio_frame.is_some() {
        Some(send_channel_packet(state, user_id))
    } else {
        None
    }
}

} // verus!
