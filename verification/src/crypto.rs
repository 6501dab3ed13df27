//! Ed25519 keys and signatures (through sodiumoxide) and random challenges
//! (through rand). Keys and signatures are held as their bytes.

use vstd::prelude::*;

verus! {

/// Bytes of an Ed25519 public key.
pub const PUBLIC_KEY_BYTES: usize = 32;

/// Bytes of an Ed25519 signature.
pub const SIGNATURE_BYTES: usize = 64;

/// Whether `b` is accepted as a signature: sixty-four bytes whose last byte
/// has its three high bits clear.
pub open spec fn signature_well_formed(b: Seq<u8>) -> bool {
    b.len() == SIGNATURE_BYTES && (b[63] & 0xE0u8) == 0u8
}

/// Whether `sig` is a valid Ed25519 signature of `msg` under the public key
/// `pk`; this is what libsodium's detached verification computes.
pub uninterp spec fn ed25519_verify(sig: Seq<u8>, msg: Seq<u8>, pk: Seq<u8>) -> bool;

/// Calls `sodiumoxide::crypto::sign::PublicKey::from_slice`, which accepts
/// exactly thirty-two bytes and copies them; the key is handed back as its
/// bytes.
#[verifier::external_body]
pub(crate) fn public_key_from_slice(bytes: &[u8]) -> (res: Option<Vec<u8>>)
    ensures
        res is Some <==> bytes@.len() == PUBLIC_KEY_BYTES,
        res matches Some(k) ==> k@ == bytes@,
{
    match sodiumoxide::crypto::sign::PublicKey::from_slice(bytes) {
        Some(key) => Some(key.0.to_vec()),
        None => None,
    }
}

/// Calls `ed25519::Signature::from_bytes` (sodiumoxide's `Signature`) and
/// tells whether it accepted the bytes: it does exactly when they are
/// sixty-four and the last one has its three high bits clear.
#[verifier::external_body]
pub(crate) fn signature_from_slice(bytes: &[u8]) -> (res: bool)
    ensures
        res == signature_well_formed(bytes@),
{
    sodiumoxide::crypto::sign::Signature::from_bytes(bytes).is_ok()
}

/// Calls `sodiumoxide::crypto::sign::verify_detached` on the signature and
/// the public key made of the given bytes: whether `sig` signs `msg` under
/// `pk`, a function of the three byte strings.
#[verifier::external_body]
pub(crate) fn verify_detached(sig: &[u8], msg: &[u8], pk: &[u8]) -> (res: bool)
    requires
        signature_well_formed(sig@),
        pk@.len() == PUBLIC_KEY_BYTES,
    ensures
        res == ed25519_verify(sig@, msg@, pk@),
{
    let s = sodiumoxide::crypto::sign::Signature::from_bytes(sig).unwrap();
    let k = sodiumoxide::crypto::sign::PublicKey::from_slice(pk).unwrap();
    sodiumoxide::crypto::sign::verify_detached(&s, msg, &k)
}

/// Calls `rand::RngCore::fill_bytes` on the thread's generator: overwrites
/// the bytes of `buf` with random ones and keeps its length.
#[verifier::external_body]
pub(crate) fn fill_random(buf: &mut Vec<u8>)
    ensures
        final(buf)@.len() == old(buf)@.len(),
{
    rand::RngCore::fill_bytes(&mut rand::thread_rng(), buf.as_mut_slice());
}

} // verus!
