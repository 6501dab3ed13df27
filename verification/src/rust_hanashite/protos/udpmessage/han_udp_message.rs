//! The payloads a voice packet can carry.

use vstd::prelude::*;
use super::{AudioPacket, PingPacket};

verus! {

/// The payload of a voice packet.
#[derive(Debug, Clone, PartialEq, Eq, Hash)]
pub enum Msg {
    AudioFrame(AudioPacket),
    PingPacket(PingPacket),
}

} // verus!
