//! A fixed-layout binary message format: a two-byte magic, a big-endian
//! 32-bit size that counts the whole message, a 16-bit message type and
//! then the fields, each written big-endian; strings and blobs carry a
//! 16-bit length before their bytes.
//!
//! The message lives in a `bytes::BytesMut`; its contents are named by
//! `bytes_mut_contents`, and every operation on the buffer goes through a
//! wrapper below whose contract says what it does to them.

use vstd::prelude::*;
use bytes::BufMut;
use crate::idset::bytes_equal;

verus! {

#[verifier::external_type_specification]
#[verifier::external_body]
pub struct ExBytesMut(bytes::BytesMut);

/// The bytes that a `BytesMut` holds, first to last.
pub uninterp spec fn bytes_mut_contents(b: bytes::BytesMut) -> Seq<u8>;

/// `BytesMut::with_capacity`: an empty buffer.
#[verifier::external_body]
fn bytes_with_capacity(capacity: usize) -> (b: bytes::BytesMut)
    requires
        capacity <= isize::MAX,
    ensures
        bytes_mut_contents(b) == Seq::<u8>::empty(),
{
    bytes::BytesMut::with_capacity(capacity)
}

/// `BytesMut::len`: the number of bytes held.
#[verifier::external_body]
fn bytes_len(b: &bytes::BytesMut) -> (n: usize)
    ensures
        n == bytes_mut_contents(*b).len(),
{
    b.len()
}

/// Indexing a `BytesMut` through its slice: the byte at `i`.
#[verifier::external_body]
fn bytes_get(b: &bytes::BytesMut, i: usize) -> (v: u8)
    requires
        i < bytes_mut_contents(*b).len(),
    ensures
        v == bytes_mut_contents(*b)[i as int],
{
    b[i]
}

/// Writing through the mutable slice of a `BytesMut`: byte `i` becomes `v`.
#[verifier::external_body]
fn bytes_set(b: &mut bytes::BytesMut, i: usize, v: u8)
    requires
        i < bytes_mut_contents(*old(b)).len(),
    ensures
        bytes_mut_contents(*final(b)) == bytes_mut_contents(*old(b)).update(i as int, v),
{
    b[i] = v;
}

/// `BufMut::put_slice` on a `BytesMut`: appends `src`.
#[verifier::external_body]
fn bytes_put_slice(b: &mut bytes::BytesMut, src: &[u8])
    requires
        bytes_mut_contents(*old(b)).len() + src@.len() <= isize::MAX,
    ensures
        bytes_mut_contents(*final(b)) == bytes_mut_contents(*old(b)) + src@,
{
    b.put_slice(src);
}

/// `BufMut::put_u8`: appends the byte.
#[verifier::external_body]
fn bytes_put_u8(b: &mut bytes::BytesMut, n: u8)
    requires
        bytes_mut_contents(*old(b)).len() + 1 <= isize::MAX,
    ensures
        bytes_mut_contents(*final(b)) == bytes_mut_contents(*old(b)).push(n),
{
    b.put_u8(n);
}

/// `BufMut::put_i8`: appends the byte of the two's complement of `n`.
#[verifier::external_body]
fn bytes_put_i8(b: &mut bytes::BytesMut, n: i8)
    requires
        bytes_mut_contents(*old(b)).len() + 1 <= isize::MAX,
    ensures
        bytes_mut_contents(*final(b)) == bytes_mut_contents(*old(b)).push(n as u8),
{
    b.put_i8(n);
}

/// `BufMut::put_u16`: appends `n` big-endian.
#[verifier::external_body]
fn bytes_put_u16(b: &mut bytes::BytesMut, n: u16)
    requires
        bytes_mut_contents(*old(b)).len() + 2 <= isize::MAX,
    ensures
        bytes_mut_contents(*final(b)) == bytes_mut_contents(*old(b)) + be16(n),
{
    b.put_u16(n);
}

/// `BufMut::put_i16`: appends the two's complement of `n` big-endian.
#[verifier::external_body]
fn bytes_put_i16(b: &mut bytes::BytesMut, n: i16)
    requires
        bytes_mut_contents(*old(b)).len() + 2 <= isize::MAX,
    ensures
        bytes_mut_contents(*final(b)) == bytes_mut_contents(*old(b)) + be16(n as u16),
{
    b.put_i16(n);
}

/// `BufMut::put_u32`: appends `n` big-endian.
#[verifier::external_body]
fn bytes_put_u32(b: &mut bytes::BytesMut, n: u32)
    requires
        bytes_mut_contents(*old(b)).len() + 4 <= isize::MAX,
    ensures
        bytes_mut_contents(*final(b)) == bytes_mut_contents(*old(b)) + be32(n),
{
    b.put_u32(n);
}

/// `BufMut::put_i32`: appends the two's complement of `n` big-endian.
#[verifier::external_body]
fn bytes_put_i32(b: &mut bytes::BytesMut, n: i32)
    requires
        bytes_mut_contents(*old(b)).len() + 4 <= isize::MAX,
    ensures
        bytes_mut_contents(*final(b)) == bytes_mut_contents(*old(b)) + be32(n as u32),
{
    b.put_i32(n);
}

/// `BufMut::put_u64`: appends `n` big-endian.
#[verifier::external_body]
fn bytes_put_u64(b: &mut bytes::BytesMut, n: u64)
    requires
        bytes_mut_contents(*old(b)).len() + 8 <= isize::MAX,
    ensures
        bytes_mut_contents(*final(b)) == bytes_mut_contents(*old(b)) + be64(n),
{
    b.put_u64(n);
}

/// `BufMut::put_i64`: appends the two's complement of `n` big-endian.
#[verifier::external_body]
fn bytes_put_i64(b: &mut bytes::BytesMut, n: i64)
    requires
        bytes_mut_contents(*old(b)).len() + 8 <= isize::MAX,
    ensures
        bytes_mut_contents(*final(b)) == bytes_mut_contents(*old(b)) + be64(n as u64),
{
    b.put_i64(n);
}

/// `byteorder::BigEndian::read_u32`: the first four bytes of `buf`, read
/// big-endian.
#[verifier::external_body]
fn read_be_u32(buf: &[u8]) -> (v: u32)
    requires
        buf@.len() >= 4,
    ensures
        v as int == be32_value(buf@),
{
    <byteorder::BigEndian as byteorder::ByteOrder>::read_u32(buf)
}

/// The two bytes of `x`, most significant first.
pub open spec fn be16(x: u16) -> Seq<u8> {
    seq![(x >> 8u16) as u8, x as u8]
}

/// The four bytes of `x`, most significant first.
pub open spec fn be32(x: u32) -> Seq<u8> {
    seq![(x >> 24u32) as u8, (x >> 16u32) as u8, (x >> 8u32) as u8, x as u8]
}

/// The eight bytes of `x`, most significant first.
pub open spec fn be64(x: u64) -> Seq<u8> {
    seq![
        (x >> 56u64) as u8,
        (x >> 48u64) as u8,
        (x >> 40u64) as u8,
        (x >> 32u64) as u8,
        (x >> 24u64) as u8,
        (x >> 16u64) as u8,
        (x >> 8u64) as u8,
        x as u8,
    ]
}

/// The number that the first four bytes of `s` write big-endian.
pub open spec fn be32_value(s: Seq<u8>) -> int
    recommends
        s.len() >= 4,
{
    s[0] * 0x1000000 + s[1] * 0x10000 + s[2] * 0x100 + s[3]
}

/// The magic that opens every message.
pub open spec fn magic_seq() -> Seq<u8> {
    seq![0x8Au8, 0x71u8]
}

/// `s` with its size field (bytes 2 to 5) set to its length.
pub open spec fn with_size(s: Seq<u8>) -> Seq<u8>
    recommends
        s.len() >= 6,
{
    s.subrange(0, 2) + be32(s.len() as u32) + s.subrange(6, s.len() as int)
}

/// The outcome of `RawHanMessage::validate` on the bytes `s`: a buffer of
/// two or more bytes whose first byte differs from the two-byte magic is
/// refused (and a one-byte prefix never equals two bytes), one of eight or
/// more bytes is complete when it holds its size, and a shorter one is
/// incomplete.
pub open spec fn validate_outcome(s: Seq<u8>) -> Result<bool, ()> {
    if s.len() >= 2 && s.subrange(0, 1) != magic_seq() {
        Err(())
    } else if s.len() >= 8 {
        Ok(s.len() >= be32_value(s.subrange(2, 6)))
    } else {
        Ok(false)
    }
}

/// A message under construction.
pub struct RawHanMessage {
    pub bytes: bytes::BytesMut,
}

impl View for RawHanMessage {
    type V = Seq<u8>;

    open spec fn view(&self) -> Seq<u8> {
        bytes_mut_contents(self.bytes)
    }
}

/// Why `RawHanMessage::validate` refused a buffer.
#[derive(Debug, Clone, PartialEq, Eq)]
pub enum MessageError {
    InvalidData(String),
}

/// A message of the binary format, by kind.
#[derive(Debug, Clone, PartialEq, Eq)]
pub enum HanMessage {
    Auth { cmduuid: String, user: String },
    Join { cmduuid: String, channel: String },
    LoginOk { cmduuid: String, uuid: String },
    LoginFail { cmduuid: String, message: String },
    JoinOk { cmduuid: String, channel: String },
    JoinFail { cmduuid: String, channel: String },
}

/// The message type of a client's login.
pub const AUTH: u16 = 1;

/// The message type of a client's channel join.
pub const JOIN: u16 = 2;

/// The message type of an accepted login.
pub const LOGIN_OK: u16 = 101;

/// The message type of a refused login.
pub const LOGIN_FAIL: u16 = 102;

/// The message type of an accepted join.
pub const JOIN_OK: u16 = 103;

/// The message type of a refused join.
pub const JOIN_FAIL: u16 = 104;

/// The size field always equals the length: `with_size` keeps the length,
/// writes the length big-endian into bytes 2 to 5 and leaves every other
/// byte as it was.
pub proof fn lemma_with_size(s: Seq<u8>)
    requires
        6 <= s.len() <= u32::MAX,
    ensures
        with_size(s).len() == s.len(),
        with_size(s).subrange(2, 6) == be32(s.len() as u32),
        with_size(s).subrange(0, 2) == s.subrange(0, 2),
        with_size(s).subrange(6, s.len() as int) == s.subrange(6, s.len() as int),
{
    assert(with_size(s).subrange(2, 6) =~= be32(s.len() as u32));
    assert(with_size(s).subrange(0, 2) =~= s.subrange(0, 2));
    assert(with_size(s).subrange(6, s.len() as int) =~= s.subrange(6, s.len() as int));
}

impl RawHanMessage {
    /// A message of type `msg_type` with no fields: the magic, the size 8
    /// and the type.
    pub fn new(msg_type: u16) -> (res: RawHanMessage)
        ensures
            res@ == magic_seq() + be32(8) + be16(msg_type),
    {
        let mut data = bytes_with_capacity(8);
        let magic: Vec<u8> = vec![0x8Au8, 0x71u8];
        bytes_put_slice(&mut data, magic.as_slice());
        bytes_put_u32(&mut data, 8);
        bytes_put_u16(&mut data, msg_type);
        RawHanMessage { bytes: data }
    }

    /// Whether `data` holds a whole message: `Ok(true)` when it does,
    /// `Ok(false)` when more bytes are needed, an error when the magic is
    /// wrong. The magic test compares the one-byte prefix with the two
    /// magic bytes; lengths that differ never compare equal, so, by what
    /// looks like a slip in that test rather than a design, every buffer of
    /// two or more bytes is refused and the size check is never reached.
    pub fn validate(data: &bytes::BytesMut) -> (res: Result<bool, MessageError>)
        ensures
            match validate_outcome(bytes_mut_contents(*data)) {
                Ok(b) => res == Ok::<bool, MessageError>(b),
                Err(_) => res matches Err(MessageError::InvalidData(m)) && m@ == "Magic Bytes were wrong !"@,
            },
            bytes_mut_contents(*data).len() >= 2 ==> res is Err,
    {
        let len = bytes_len(data);
        if len >= 2 {
            let prefix: Vec<u8> = vec![bytes_get(data, 0)];
            let magic: Vec<u8> = vec![0x8Au8, 0x71u8];
            let same = bytes_equal(prefix.as_slice(), magic.as_slice());
            proof {
                assert(prefix@ =~= bytes_mut_contents(*data).subrange(0, 1));
                assert(magic@ =~= magic_seq());
                assert(prefix@.len() != magic@.len());
            }
            if !same {
                return Err(MessageError::InvalidData("Magic Bytes were wrong !".to_owned()));
            }
        }
        if len >= 8 {
            let field: Vec<u8> = vec![bytes_get(data, 2), bytes_get(data, 3), bytes_get(data, 4), bytes_get(data, 5)];
            let msg_size = read_be_u32(field.as_slice());
            proof {
                assert(field@ =~= bytes_mut_contents(*data).subrange(2, 6));
            }
            return Ok(len as u64 >= msg_size as u64);
        }
        Ok(false)
    }

    /// The number of bytes written so far.
    pub fn len(&self) -> (n: usize)
        ensures
            n == self@.len(),
    {
        bytes_len(&self.bytes)
    }

    /// Writes the length into the size field.
    fn update_size(&mut self)
        requires
            old(self)@.len() >= 6,
        ensures
            final(self)@ == with_size(old(self)@),
    {
        let len = bytes_len(&self.bytes) as u32;
        bytes_set(&mut self.bytes, 2, (len >> 24u32) as u8);
        bytes_set(&mut self.bytes, 3, (len >> 16u32) as u8);
        bytes_set(&mut self.bytes, 4, (len >> 8u32) as u8);
        bytes_set(&mut self.bytes, 5, len as u8);
        assert(self@ =~= with_size(old(self)@));
    }

    /// Appends a byte.
    pub fn add_u8(&mut self, data: u8)
        requires
            old(self)@.len() >= 6,
            old(self)@.len() + 1 <= isize::MAX,
        ensures
            final(self)@ == with_size(old(self)@.push(data)),
    {
        bytes_put_u8(&mut self.bytes, data);
        self.update_size();
    }

    /// Appends a signed byte.
    pub fn add_i8(&mut self, data: i8)
        requires
            old(self)@.len() >= 6,
            old(self)@.len() + 1 <= isize::MAX,
        ensures
            final(self)@ == with_size(old(self)@.push(data as u8)),
    {
        bytes_put_i8(&mut self.bytes, data);
        self.update_size();
    }

    /// Appends a 16-bit number.
    pub fn add_u16(&mut self, data: u16)
        requires
            old(self)@.len() >= 6,
            old(self)@.len() + 2 <= isize::MAX,
        ensures
            final(self)@ == with_size(old(self)@ + be16(data)),
    {
        bytes_put_u16(&mut self.bytes, data);
        self.update_size();
    }

    /// Appends a signed 16-bit number.
    pub fn add_i16(&mut self, data: i16)
        requires
            old(self)@.len() >= 6,
            old(self)@.len() + 2 <= isize::MAX,
        ensures
            final(self)@ == with_size(old(self)@ + be16(data as u16)),
    {
        bytes_put_i16(&mut self.bytes, data);
        self.update_size();
    }

    /// Appends a 32-bit number.
    pub fn add_u32(&mut self, data: u32)
        requires
            old(self)@.len() >= 6,
            old(self)@.len() + 4 <= isize::MAX,
        ensures
            final(self)@ == with_size(old(self)@ + be32(data)),
    {
        bytes_put_u32(&mut self.bytes, data);
        self.update_size();
    }

    /// Appends a signed 32-bit number.
    pub fn add_i32(&mut self, data: i32)
        requires
            old(self)@.len() >= 6,
            old(self)@.len() + 4 <= isize::MAX,
        ensures
            final(self)@ == with_size(old(self)@ + be32(data as u32)),
    {
        bytes_put_i32(&mut self.bytes, data);
        self.update_size();
    }

    /// Appends a 64-bit number.
    pub fn add_u64(&mut self, data: u64)
        requires
            old(self)@.len() >= 6,
            old(self)@.len() + 8 <= isize::MAX,
        ensures
            final(self)@ == with_size(old(self)@ + be64(data)),
    {
        bytes_put_u64(&mut self.bytes, data);
        self.update_size();
    }

    /// Appends a signed 64-bit number.
    pub fn add_i64(&mut self, data: i64)
        requires
            old(self)@.len() >= 6,
            old(self)@.len() + 8 <= isize::MAX,
        ensures
            final(self)@ == with_size(old(self)@ + be64(data as u64)),
    {
        bytes_put_i64(&mut self.bytes, data);
        self.update_size();
    }

    /// Appends a string: its byte length as 16 bits (cut to the low 16
    /// bits), then its UTF-8 bytes.
    pub fn add_string(&mut self, data: &String)
        requires
            old(self)@.len() >= 6,
            old(self)@.len() + 2 + vstd::utf8::encode_utf8(data@).len() <= isize::MAX,
        ensures
            final(self)@ == with_size(
                old(self)@ + be16(vstd::utf8::encode_utf8(data@).len() as u16) + vstd::utf8::encode_utf8(data@),
            ),
    {
        let raw: &[u8] = data.as_str().as_bytes();
        bytes_put_u16(&mut self.bytes, raw.len() as u16);
        bytes_put_slice(&mut self.bytes, raw);
        self.update_size();
    }

    /// Appends a blob: its length as 16 bits (cut to the low 16 bits), then
    /// its bytes.
    pub fn add_blob(&mut self, data: &[u8])
        requires
            old(self)@.len() >= 6,
            old(self)@.len() + 2 + data@.len() <= isize::MAX,
        ensures
            final(self)@ == with_size(old(self)@ + be16(data@.len() as u16) + data@),
    {
        bytes_put_u16(&mut self.bytes, data.len() as u16);
        bytes_put_slice(&mut self.bytes, data);
        self.update_size();
    }
}

} // verus!
