//! The payloads a control message can carry.

use vstd::prelude::*;
use super::{Auth, AuthResult, ChannelCreate, ChannelCreateResult, ChannelDelete, ChannelDeleteResult, ChannelJoin, ChannelJoinEvent, ChannelJoinResult, ChannelList, ChannelListResult, ChannelPart, ChannelPartEvent, ChannelPartResult, ChannelStatus, ChannelStatusResult, Status, StatusResult};

verus! {

/// The payload of a control message.
#[derive(Debug, Clone, PartialEq, Eq, Hash)]
pub enum Msg {
    Auth(Auth),
    AuthResult(AuthResult),
    ChanCrea(ChannelCreate),
    ChanCreaResult(ChannelCreateResult),
    ChanDel(ChannelDelete),
    ChanDelResult(ChannelDeleteResult),
    ChanLst(ChannelList),
    ChanLstResult(ChannelListResult),
    ChanJoin(ChannelJoin),
    ChanJoinResult(ChannelJoinResult),
    ChanPart(ChannelPart),
    ChanPartResult(ChannelPartResult),
    ChanStatus(ChannelStatus),
    ChanStatusResult(ChannelStatusResult),
    Status(Status),
    StatusResult(StatusResult),
    ChanJoinEv(ChannelJoinEvent),
    ChanPartEv(ChannelPartEvent),
}

} // verus!
