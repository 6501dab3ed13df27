//! Connection, channel and message identifiers.
//!
//! An identifier is a UUID, held as its 128-bit value; on the wire it travels
//! as its sixteen bytes in big-endian order.

use vstd::prelude::*;

verus! {

/// The sixteen big-endian bytes of a UUID value.
pub open spec fn uuid_bytes(v: u128) -> Seq<u8> {
    seq![
        (v >> 120u128) as u8, (v >> 112u128) as u8, (v >> 104u128) as u8, (v >> 96u128) as u8,
        (v >> 88u128) as u8, (v >> 80u128) as u8, (v >> 72u128) as u8, (v >> 64u128) as u8,
        (v >> 56u128) as u8, (v >> 48u128) as u8, (v >> 40u128) as u8, (v >> 32u128) as u8,
        (v >> 24u128) as u8, (v >> 16u128) as u8, (v >> 8u128) as u8, v as u8,
    ]
}

/// Two UUID values with the same bytes are the same value.
pub proof fn lemma_uuid_bytes_injective(a: u128, b: u128)
    requires
        uuid_bytes(a) == uuid_bytes(b),
    ensures
        a == b,
{
    assert(uuid_bytes(a)[0] == uuid_bytes(b)[0]);
    assert(uuid_bytes(a)[1] == uuid_bytes(b)[1]);
    assert(uuid_bytes(a)[2] == uuid_bytes(b)[2]);
    assert(uuid_bytes(a)[3] == uuid_bytes(b)[3]);
    assert(uuid_bytes(a)[4] == uuid_bytes(b)[4]);
    assert(uuid_bytes(a)[5] == uuid_bytes(b)[5]);
    assert(uuid_bytes(a)[6] == uuid_bytes(b)[6]);
    assert(uuid_bytes(a)[7] == uuid_bytes(b)[7]);
    assert(uuid_bytes(a)[8] == uuid_bytes(b)[8]);
    assert(uuid_bytes(a)[9] == uuid_bytes(b)[9]);
    assert(uuid_bytes(a)[10] == uuid_bytes(b)[10]);
    assert(uuid_bytes(a)[11] == uuid_bytes(b)[11]);
    assert(uuid_bytes(a)[12] == uuid_bytes(b)[12]);
    assert(uuid_bytes(a)[13] == uuid_bytes(b)[13]);
    assert(uuid_bytes(a)[14] == uuid_bytes(b)[14]);
    assert(uuid_bytes(a)[15] == uuid_bytes(b)[15]);
    assert(a == b) by (bit_vector)
        requires
            (a >> 120u128) as u8 == (b >> 120u128) as u8,
            (a >> 112u128) as u8 == (b >> 112u128) as u8,
            (a >> 104u128) as u8 == (b >> 104u128) as u8,
            (a >> 96u128) as u8 == (b >> 96u128) as u8,
            (a >> 88u128) as u8 == (b >> 88u128) as u8,
            (a >> 80u128) as u8 == (b >> 80u128) as u8,
            (a >> 72u128) as u8 == (b >> 72u128) as u8,
            (a >> 64u128) as u8 == (b >> 64u128) as u8,
            (a >> 56u128) as u8 == (b >> 56u128) as u8,
            (a >> 48u128) as u8 == (b >> 48u128) as u8,
            (a >> 40u128) as u8 == (b >> 40u128) as u8,
            (a >> 32u128) as u8 == (b >> 32u128) as u8,
            (a >> 24u128) as u8 == (b >> 24u128) as u8,
            (a >> 16u128) as u8 == (b >> 16u128) as u8,
            (a >> 8u128) as u8 == (b >> 8u128) as u8,
            a as u8 == b as u8,
    ;
}

/// Calls `uuid::Uuid::new_v4` and hands back the UUID's 128-bit value.
/// The value is random: nothing is promised of it.
#[verifier::external_body]
pub(crate) fn uuid_new_v4() -> u128 {
    uuid::Uuid::new_v4().as_u128()
}

/// Calls `uuid::Uuid::from_slice`, which accepts exactly sixteen bytes and
/// copies them; the value handed back is the UUID's 128-bit value, whose
/// big-endian bytes are the slice.
#[verifier::external_body]
pub(crate) fn uuid_from_slice(bytes: &[u8]) -> (res: Option<u128>)
    ensures
        res is Some <==> bytes@.len() == 16,
        res matches Some(v) ==> uuid_bytes(v) == bytes@,
{
    match uuid::Uuid::from_slice(bytes) {
        Ok(id) => Some(id.as_u128()),
        Err(_) => None,
    }
}

/// Calls `uuid::Uuid::from_u128` and `as_bytes`: the UUID's sixteen bytes,
/// which are the value's big-endian bytes.
#[verifier::external_body]
pub(crate) fn uuid_as_bytes(id: u128) -> (res: Vec<u8>)
    ensures
        res@ == uuid_bytes(id),
{
    uuid::Uuid::from_u128(id).as_bytes().to_vec()
}

} // verus!
