//! The payloads a control message can carry.

use vstd::prelude::*;
use super::{Auth, AuthResponse, Challenge, ChallengeResponse, VoiceChannelJoin, VoiceChannelJoinResponse};

verus! {

/// The payload of a control message.
#[derive(Debug, Clone, PartialEq, Eq)]
pub enum Msg {
    Auth(Auth),
    AuthResponse(AuthResponse),
    Challenge(Challenge),
    ChallengeResponse(ChallengeResponse),
    VoiceChannelJoin(VoiceChannelJoin),
    VoiceChannelJoinResponse(VoiceChannelJoinResponse),
}

} // verus!
