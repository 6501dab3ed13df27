//! Message definitions and helpers to fill them.

pub mod hanmessage;

use vstd::prelude::*;
use crate::ids::{uuid_as_bytes, uuid_bytes, uuid_from_slice, lemma_uuid_bytes_injective};
use hanmessage::HanMessage;
use hanmessage::han_message::Msg;

verus! {

/// Bytes a stream decoder reads as the header of a message.
pub const HEADER_LENGTH: usize = 10;

/// The magic number every stream header carries.
pub const MAGIC_HEADER: u32 = 0x00008A71;

/// The identifier whose bytes are `bytes`, if `bytes` is sixteen bytes long.
pub open spec fn try_uuid_spec(bytes: Seq<u8>) -> Option<u128> {
    if bytes.len() == 16 {
        Some(choose|v: u128| uuid_bytes(v) == bytes)
    } else {
        None
    }
}

/// The wire form of an optional identifier: nothing, or its sixteen bytes.
pub open spec fn opt_uuid_bytes(id: Option<u128>) -> Seq<u8> {
    match id {
        None => Seq::empty(),
        Some(v) => uuid_bytes(v),
    }
}

/// Reads an identifier from its wire form; `None` unless there are exactly
/// sixteen bytes.
pub fn try_uuid(bytes: &Vec<u8>) -> (res: Option<u128>)
    ensures
        res == try_uuid_spec(bytes@),
        res matches Some(v) ==> uuid_bytes(v) == bytes@,
{
    let r = uuid_from_slice(bytes.as_slice());
    proof {
        if let Some(v) = r {
            let w = choose|w: u128| uuid_bytes(w) == bytes@;
            lemma_uuid_bytes_injective(v, w);
        }
    }
    r
}

/// The wire form of an optional identifier.
pub fn to_data_opt(id: &Option<u128>) -> (res: Vec<u8>)
    ensures
        res@ == opt_uuid_bytes(*id),
{
    match id {
        None => Vec::new(),
        Some(v) => uuid_as_bytes(*v),
    }
}

/// The wire form of an identifier: its sixteen bytes.
pub fn to_data(id: &u128) -> (res: Vec<u8>)
    ensures
        res@ == uuid_bytes(*id),
{
    uuid_as_bytes(*id)
}

/// A message with the given identifier and payload.
pub fn build_message(uuid: &Option<u128>, msg: Msg) -> (res: Box<HanMessage>)
    ensures
        res.message_id@ == opt_uuid_bytes(*uuid),
        res.msg == Some(msg),
{
    Box::new(HanMessage { message_id: to_data_opt(uuid), msg: Some(msg) })
}

/// An identifier read back from its wire form is the identifier itself.
pub proof fn lemma_uuid_wire_roundtrip(id: u128)
    ensures
        try_uuid_spec(uuid_bytes(id)) == Some(id),
{
    let w = choose|w: u128| uuid_bytes(w) == uuid_bytes(id);
    lemma_uuid_bytes_injective(w, id);
}

} // verus!
