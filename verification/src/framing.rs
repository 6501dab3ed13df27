//! The stream header that precedes every control message on the wire.
//!
//! A header is a protocol-buffers message of two `fixed32` fields: field 1
//! holds the magic number, field 2 the length of the message that follows.
//! A field whose value is zero is left out, as proto3 leaves out defaults;
//! a present field is its key byte and the value's four little-endian bytes.
//! Reading follows protocol buffers: a later field 1 or 2 overrides an
//! earlier one, and fields with other numbers are skipped by their wire type.

use vstd::prelude::*;

verus! {

/// Key byte of field 1 (`magic`), wire type `fixed32`.
pub const MAGIC_KEY: u8 = 0x0D;

/// Key byte of field 2 (`length`), wire type `fixed32`.
pub const LENGTH_KEY: u8 = 0x15;

/// The header could not be read as a protocol-buffers message.
#[derive(Debug, Clone, Copy, PartialEq, Eq)]
pub struct DecodeError;

/// The four little-endian bytes of `v`.
pub open spec fn le32(v: u32) -> Seq<u8> {
    seq![v as u8, (v >> 8u32) as u8, (v >> 16u32) as u8, (v >> 24u32) as u8]
}

/// The value whose little-endian bytes are `s[0..4]`.
pub open spec fn le32_value(s: Seq<u8>) -> u32 {
    (s[0] as u32) | ((s[1] as u32) << 8u32) | ((s[2] as u32) << 16u32) | ((s[3] as u32) << 24u32)
}

/// One encoded `fixed32` field: absent when the value is zero.
pub open spec fn field_bytes(key: u8, v: u32) -> Seq<u8> {
    if v == 0 {
        Seq::empty()
    } else {
        seq![key] + le32(v)
    }
}

/// The encoding of a header with the given magic number and length.
pub open spec fn header_bytes(magic: u32, length: u32) -> Seq<u8> {
    field_bytes(MAGIC_KEY, magic) + field_bytes(LENGTH_KEY, length)
}

/// `128` to the power `n`: the weight of the `n`-th group of seven bits of
/// a varint.
pub open spec fn pow128(n: nat) -> nat
    decreases n,
{
    if n == 0 {
        1
    } else {
        128 * pow128((n - 1) as nat)
    }
}

/// The varint whose byte number `count` is `s[count]`: its value counted
/// from that byte on, and the number of bytes it takes from the start. A
/// varint ends at the first byte below 0x80; it has at most ten bytes, and a
/// tenth byte above 1 would overflow 64 bits.
pub open spec fn varint_from(s: Seq<u8>, count: nat) -> Option<(int, int)>
    decreases 10 - count,
{
    if count >= 10 || count >= s.len() {
        None
    } else if s[count as int] < 0x80 {
        if count == 9 && s[count as int] >= 2 {
            None
        } else {
            Some((s[count as int] * pow128(count), (count + 1) as int))
        }
    } else {
        match varint_from(s, count + 1) {
            Some((v, n)) => Some(((s[count as int] - 0x80) * pow128(count) + v, n)),
            None => None,
        }
    }
}

/// The varint at the start of `s`: its value and its number of bytes.
pub open spec fn varint_spec(s: Seq<u8>) -> Option<(int, int)> {
    varint_from(s, 0)
}

/// The field key at the start of `s`: its field number, its wire type and
/// its number of bytes. A key above 32 bits, a wire type above 5 and field
/// number 0 are errors.
pub open spec fn decode_key_spec(s: Seq<u8>) -> Option<(int, int, int)> {
    match varint_spec(s) {
        None => None,
        Some((v, n)) => if v > u32::MAX || v % 8 > 5 || v / 8 < 1 {
            None
        } else {
            Some((v / 8, v % 8, n))
        },
    }
}

/// The number of bytes that a field of wire type `wt` and number `tag`
/// takes after its key when it is skipped, at nesting budget `depth`: a
/// varint, eight or four bytes, a length-delimited chunk, or a group up to
/// its matching end key. A budget of zero, a stray end key, a missing byte
/// and an invalid varint are errors.
pub open spec fn skip_field_spec(wt: int, tag: int, s: Seq<u8>, depth: nat) -> Option<int>
    decreases s.len(), 1int,
{
    if depth == 0 {
        None
    } else if wt == 0 {
        match varint_spec(s) {
            Some((_, n)) => Some(n),
            None => None,
        }
    } else if wt == 1 {
        if s.len() >= 8 { Some(8) } else { None }
    } else if wt == 2 {
        match varint_spec(s) {
            Some((l, n)) => if l > s.len() - n { None } else { Some(n + l) },
            None => None,
        }
    } else if wt == 3 {
        skip_group_spec(s, tag, depth)
    } else if wt == 5 {
        if s.len() >= 4 { Some(4) } else { None }
    } else {
        None
    }
}

/// The number of bytes of the rest of a group with number `tag`, its end
/// key included: the fields inside are skipped at a budget one lower.
pub open spec fn skip_group_spec(s: Seq<u8>, tag: int, depth: nat) -> Option<int>
    decreases s.len(), 0int,
{
    match decode_key_spec(s) {
        None => None,
        Some((t, w, k)) => if !(1 <= k <= s.len()) {
            None
        } else if w == 4 {
            if t != tag { None } else { Some(k) }
        } else {
            match skip_field_spec(w, t, s.skip(k), (depth - 1) as nat) {
                None => None,
                Some(m) => if !(0 <= m <= s.len() - k) {
                    None
                } else {
                    match skip_group_spec(s.skip(k + m), tag, depth) {
                        Some(r) => Some(k + m + r),
                        None => None,
                    }
                },
            }
        },
    }
}

/// Reads the fields of `s` one after the other, starting from the values
/// `(magic, length)`, as a protocol-buffers decoder does: field 1 and
/// field 2 must be `fixed32` and a later one overrides an earlier one;
/// any other field is skipped by its wire type.
pub open spec fn decode_fields(s: Seq<u8>, magic: u32, length: u32) -> Option<(u32, u32)>
    decreases s.len(),
{
    if s.len() == 0 {
        Some((magic, length))
    } else {
        match decode_key_spec(s) {
            None => None,
            Some((t, w, k)) => if !(1 <= k <= s.len()) {
                None
            } else if t == 1 || t == 2 {
                let rest = s.skip(k);
                if w != 5 || rest.len() < 4 {
                    None
                } else if t == 1 {
                    decode_fields(rest.skip(4), le32_value(rest.subrange(0, 4)), length)
                } else {
                    decode_fields(rest.skip(4), magic, le32_value(rest.subrange(0, 4)))
                }
            } else {
                let rest = s.skip(k);
                match skip_field_spec(w, t, rest, 100) {
                    None => None,
                    Some(m) => if !(0 <= m <= rest.len()) {
                        None
                    } else {
                        decode_fields(rest.skip(m), magic, length)
                    },
                }
            },
        }
    }
}

/// A varint read from byte `count` on ends after that byte and inside `s`.
proof fn lemma_varint_from_bounds(s: Seq<u8>, count: nat)
    ensures
        varint_from(s, count) matches Some((v, n)) ==> count < n <= s.len() && v >= 0,
    decreases 10 - count,
{
    if count < 10 && count < s.len() && s[count as int] >= 0x80 {
        lemma_varint_from_bounds(s, count + 1);
    }
}

/// A key ends inside `s`, after at least one byte.
proof fn lemma_key_bounds(s: Seq<u8>)
    ensures
        decode_key_spec(s) matches Some((t, w, k)) ==> 1 <= k <= s.len() && 0 <= w <= 5 && 1 <= t <= u32::MAX,
{
    lemma_varint_from_bounds(s, 0);
}

/// The `(magic, length)` pair that `s` encodes, if it encodes one; fields
/// that are absent are zero.
pub open spec fn decode_header_spec(s: Seq<u8>) -> Option<(u32, u32)> {
    decode_fields(s, 0, 0)
}

proof fn lemma_le32_roundtrip(v: u32)
    ensures
        le32_value(le32(v)) == v,
{
    let b0 = v as u8;
    let b1 = (v >> 8u32) as u8;
    let b2 = (v >> 16u32) as u8;
    let b3 = (v >> 24u32) as u8;
    assert((b0 as u32) | ((b1 as u32) << 8u32) | ((b2 as u32) << 16u32) | ((b3 as u32) << 24u32)
        == v) by (bit_vector)
        requires
            b0 == v as u8,
            b1 == (v >> 8u32) as u8,
            b2 == (v >> 16u32) as u8,
            b3 == (v >> 24u32) as u8,
    ;
}

proof fn lemma_decode_field(key: u8, v: u32, rest: Seq<u8>, magic: u32, length: u32)
    requires
        v != 0,
        key == MAGIC_KEY || key == LENGTH_KEY,
    ensures
        decode_fields(field_bytes(key, v) + rest, magic, length) == (if key == MAGIC_KEY {
            decode_fields(rest, v, length)
        } else {
            decode_fields(rest, magic, v)
        }),
{
    let s = field_bytes(key, v) + rest;
    lemma_le32_roundtrip(v);
    assert(s[0] == key);
    assert(pow128(0) == 1);
    assert(varint_spec(s) == Some((key as int, 1int)));
    if key == MAGIC_KEY {
        assert(decode_key_spec(s) == Some((1int, 5int, 1int)));
    } else {
        assert(decode_key_spec(s) == Some((2int, 5int, 1int)));
    }
    let r = s.skip(1);
    assert(r.skip(4) =~= rest);
    assert(r.subrange(0, 4) =~= le32(v));
}

/// Decoding the encoding of a header gives back its magic number and length.
pub proof fn lemma_header_roundtrip(magic: u32, length: u32)
    ensures
        decode_header_spec(header_bytes(magic, length)) == Some((magic, length)),
{
    let lf = field_bytes(LENGTH_KEY, length);
    if length != 0 {
        lemma_decode_field(LENGTH_KEY, length, Seq::empty(), magic, 0);
        assert(lf + Seq::<u8>::empty() =~= lf);
    }
    if magic != 0 {
        lemma_decode_field(MAGIC_KEY, magic, lf, 0, 0);
    } else {
        assert(header_bytes(magic, length) =~= lf);
        if length != 0 {
            lemma_decode_field(LENGTH_KEY, length, Seq::empty(), 0, 0);
            assert(lf + Seq::<u8>::empty() =~= lf);
        }
    }
}

/// Reads the little-endian `u32` at `bytes[at..at + 4]`.
fn read_u32_le(bytes: &[u8], at: usize) -> (res: u32)
    requires
        at + 4 <= bytes@.len(),
    ensures
        res == le32_value(bytes@.subrange(at as int, at + 4)),
{
    let b0 = bytes[at] as u32;
    let b1 = bytes[at + 1] as u32;
    let b2 = bytes[at + 2] as u32;
    let b3 = bytes[at + 3] as u32;
    b0 | (b1 << 8u32) | (b2 << 16u32) | (b3 << 24u32)
}

/// Appends the four little-endian bytes of `v` to `dst`.
fn push_u32_le(dst: &mut Vec<u8>, v: u32)
    ensures
        final(dst)@ == old(dst)@ + le32(v),
{
    dst.push(v as u8);
    dst.push((v >> 8u32) as u8);
    dst.push((v >> 16u32) as u8);
    dst.push((v >> 24u32) as u8);
    assert(final(dst)@ =~= old(dst)@ + le32(v));
}

/// Appends the encoding of the header `(magic, length)` to `dst`.
pub fn encode_header(magic: u32, length: u32, dst: &mut Vec<u8>)
    ensures
        final(dst)@ == old(dst)@ + header_bytes(magic, length),
{
    if magic != 0 {
        dst.push(MAGIC_KEY);
        push_u32_le(dst, magic);
    }
    let ghost mid = dst@;
    if length != 0 {
        dst.push(LENGTH_KEY);
        push_u32_le(dst, length);
    }
    assert(mid =~= old(dst)@ + field_bytes(MAGIC_KEY, magic));
    assert(final(dst)@ =~= old(dst)@ + header_bytes(magic, length));
}

/// The number of bytes that the header `(magic, length)` takes on the wire.
pub fn header_len(magic: u32, length: u32) -> (res: usize)
    ensures
        res == header_bytes(magic, length).len(),
{
    (if magic != 0 { 5usize } else { 0usize }) + (if length != 0 { 5usize } else { 0usize })
}

/// `pow128` grows with its argument.
proof fn lemma_pow128_mono(a: nat, b: nat)
    requires
        a <= b,
    ensures
        pow128(a) <= pow128(b),
    decreases b,
{
    if a < b {
        lemma_pow128_mono(a, (b - 1) as nat);
    }
}

/// The weight of the tenth byte of a varint is 2 to the 63.
proof fn lemma_pow128_nine()
    ensures
        pow128(9) == 0x8000_0000_0000_0000,
{
    reveal_with_fuel(pow128, 10);
}

/// Reads the varint that starts at `pos`: its value and the position after it.
fn read_varint(s: &[u8], pos: usize) -> (res: Option<(u64, usize)>)
    requires
        pos <= s@.len(),
    ensures
        match varint_spec(s@.skip(pos as int)) {
            None => res is None,
            Some((v, n)) => res matches Some((x, p)) && x as int == v && p as int == pos + n,
        },
{
    let ghost t = s@.skip(pos as int);
    let mut value: u64 = 0;
    let mut mult: u64 = 1;
    let mut count: usize = 0;
    proof {
        lemma_pow128_nine();
    }
    while count < 10
        invariant
            count <= 9,
            pos <= s@.len(),
            t == s@.skip(pos as int),
            mult as int == pow128(count as nat),
            pow128(9) == 0x8000_0000_0000_0000,
            value < mult,
            varint_spec(t) == (match varint_from(t, count as nat) {
                Some((v, n)) => Some((value + v, n)),
                None => None,
            }),
        decreases 10 - count,
    {
        if count >= s.len() - pos {
            return None;
        }
        let b = s[pos + count];
        assert(b == t[count as int]);
        proof {
            lemma_pow128_mono(count as nat, 9);
        }
        if b < 0x80 {
            if count == 9 && b >= 2 {
                return None;
            }
            assert(value + b * mult < 128 * mult) by (nonlinear_arith)
                requires
                    value < mult,
                    b < 0x80,
            {
            }
            if count < 9 {
                proof {
                    lemma_pow128_mono((count + 1) as nat, 9);
                }
                assert(pow128((count + 1) as nat) == 128 * pow128(count as nat));
            } else {
                assert(value + b * mult < 2 * mult) by (nonlinear_arith)
                    requires
                        value < mult,
                        b < 2,
                {
                }
            }
            return Some((value + (b as u64) * mult, pos + count + 1));
        }
        if count == 9 {
            return None;
        }
        proof {
            lemma_pow128_mono((count + 1) as nat, 9);
        }
        assert(value + (b - 0x80) * mult < mult * 128) by (nonlinear_arith)
            requires
                value < mult,
                0x80 <= b < 0x100,
        {
        }
        value = value + ((b - 0x80) as u64) * mult;
        mult = mult * 128;
        count = count + 1;
    }
    None
}

/// Reads the field key that starts at `pos`: field number, wire type and the
/// position after it.
fn read_key(s: &[u8], pos: usize) -> (res: Option<(u32, u8, usize)>)
    requires
        pos <= s@.len(),
    ensures
        match decode_key_spec(s@.skip(pos as int)) {
            None => res is None,
            Some((t, w, k)) => res matches Some((tt, ww, p)) && tt as int == t && ww as int == w && p as int == pos + k,
        },
{
    match read_varint(s, pos) {
        None => None,
        Some((v, p)) => {
            if v > 0xFFFF_FFFF || v % 8 > 5 || v / 8 < 1 {
                None
            } else {
                Some(((v / 8) as u32, (v % 8) as u8, p))
            }
        },
    }
}

/// Skips a field of wire type `wt` and number `tag` whose value starts at
/// `pos`, at nesting budget `depth`; hands back the position after it.
fn skip_field(s: &[u8], pos: usize, wt: u8, tag: u32, depth: u32) -> (res: Option<usize>)
    requires
        pos <= s@.len(),
    ensures
        match skip_field_spec(wt as int, tag as int, s@.skip(pos as int), depth as nat) {
            None => res is None,
            Some(m) => res matches Some(p) && p as int == pos + m,
        },
        res matches Some(p) ==> pos <= p <= s@.len(),
    decreases s@.len() - pos, 1int,
{
    let ghost t = s@.skip(pos as int);
    if depth == 0 {
        return None;
    }
    if wt == 0 {
        proof {
            lemma_varint_from_bounds(t, 0);
        }
        match read_varint(s, pos) {
            Some((_, p)) => Some(p),
            None => None,
        }
    } else if wt == 1 {
        if s.len() - pos >= 8 { Some(pos + 8) } else { None }
    } else if wt == 2 {
        proof {
            lemma_varint_from_bounds(t, 0);
        }
        match read_varint(s, pos) {
            Some((l, p)) => {
                if l > (s.len() - p) as u64 {
                    None
                } else {
                    Some(p + l as usize)
                }
            },
            None => None,
        }
    } else if wt == 3 {
        skip_group(s, pos, tag, depth)
    } else if wt == 5 {
        if s.len() - pos >= 4 { Some(pos + 4) } else { None }
    } else {
        None
    }
}

/// Skips the rest of a group with number `tag` whose fields start at `pos`,
/// up to and with its end key; hands back the position after it.
fn skip_group(s: &[u8], pos: usize, tag: u32, depth: u32) -> (res: Option<usize>)
    requires
        pos <= s@.len(),
        depth >= 1,
    ensures
        match skip_group_spec(s@.skip(pos as int), tag as int, depth as nat) {
            None => res is None,
            Some(m) => res matches Some(p) && p as int == pos + m,
        },
        res matches Some(p) ==> pos <= p <= s@.len(),
    decreases s@.len() - pos, 0int,
{
    let ghost t = s@.skip(pos as int);
    proof {
        lemma_key_bounds(t);
    }
    match read_key(s, pos) {
        None => None,
        Some((t2, w, p1)) => {
            if w == 4 {
                if t2 != tag { None } else { Some(p1) }
            } else {
                assert(t.skip(p1 - pos) =~= s@.skip(p1 as int));
                match skip_field(s, p1, w, t2, depth - 1) {
                    None => None,
                    Some(p2) => {
                        assert(t.skip(p2 - pos) =~= s@.skip(p2 as int));
                        skip_group(s, p2, tag, depth)
                    },
                }
            }
        },
    }
}

/// Reads a header from exactly the bytes given, as a protocol-buffers
/// decoder reads it: unknown fields are skipped.
pub fn decode_header(bytes: &[u8]) -> (res: Result<(u32, u32), DecodeError>)
    ensures
        res == (match decode_header_spec(bytes@) {
            Some(p) => Ok::<(u32, u32), DecodeError>(p),
            None => Err(DecodeError),
        }),
{
    let mut pos: usize = 0;
    let mut magic: u32 = 0;
    let mut length: u32 = 0;
    assert(bytes@.skip(0) =~= bytes@);
    while pos < bytes.len()
        invariant
            pos <= bytes@.len(),
            decode_header_spec(bytes@) == decode_fields(bytes@.skip(pos as int), magic, length),
        decreases bytes@.len() - pos,
    {
        let ghost rest0 = bytes@.skip(pos as int);
        proof {
            lemma_key_bounds(rest0);
        }
        let (tag, wt, p1) = match read_key(bytes, pos) {
            None => return Err(DecodeError),
            Some(x) => x,
        };
        let ghost rest = rest0.skip(p1 - pos);
        assert(rest =~= bytes@.skip(p1 as int));
        if tag == 1 || tag == 2 {
            if wt != 5 || bytes.len() - p1 < 4 {
                return Err(DecodeError);
            }
            assert(rest.subrange(0, 4) =~= bytes@.subrange(p1 as int, p1 + 4));
            assert(rest.skip(4) =~= bytes@.skip(p1 + 4));
            let v = read_u32_le(bytes, p1);
            if tag == 1 {
                magic = v;
            } else {
                length = v;
            }
            pos = p1 + 4;
        } else {
            match skip_field(bytes, p1, wt, tag, 100) {
                None => return Err(DecodeError),
                Some(p2) => {
                    assert(rest.skip(p2 - p1) =~= bytes@.skip(p2 as int));
                    pos = p2;
                },
            }
        }
    }
    assert(bytes@.skip(pos as int).len() == 0);
    Ok((magic, length))
}

/// The number of bytes a stream decoder reads as the header of a frame.
pub const FRAME_HEADER_LENGTH: usize = 10;

/// What a stream decoder can tell from the bytes buffered so far.
#[derive(Debug, Clone, Copy, PartialEq, Eq)]
pub enum FrameError {
    /// The first ten bytes are not a header.
    Decode(DecodeError),
    /// The header's magic number is not the expected one.
    BadMagic,
}

/// The decision on a buffer `s` of a stream whose headers carry `magic`:
/// wait for more bytes (`Ok(None)`), fail, or accept the header of a frame
/// whose message is complete in the buffer (`Ok(Some((magic, length)))`).
pub open spec fn frame_decision(s: Seq<u8>, magic: u32) -> Result<Option<(u32, u32)>, FrameError> {
    if s.len() < FRAME_HEADER_LENGTH {
        Ok(None)
    } else {
        match decode_header_spec(s.subrange(0, FRAME_HEADER_LENGTH as int)) {
            None => Err(FrameError::Decode(DecodeError)),
            Some((m, l)) => if m != magic {
                Err(FrameError::BadMagic)
            } else if s.len() < l + FRAME_HEADER_LENGTH {
                Ok(None)
            } else {
                Ok(Some((m, l)))
            },
        }
    }
}

/// A frame written as the header of a non-empty body followed by the body
/// is taken whole, whatever follows it, and every shorter prefix of it asks
/// for more bytes. (A header of an empty body takes only five bytes, so
/// the law is stated for non-empty bodies.)
pub proof fn lemma_frame_roundtrip(magic: u32, body: Seq<u8>, rest: Seq<u8>, cut: int)
    requires
        magic != 0,
        0 < body.len() <= u32::MAX,
        0 <= cut < FRAME_HEADER_LENGTH + body.len(),
    ensures
        frame_decision(header_bytes(magic, body.len() as u32) + body + rest, magic)
            == Ok::<Option<(u32, u32)>, FrameError>(Some((magic, body.len() as u32))),
        frame_decision((header_bytes(magic, body.len() as u32) + body).take(cut), magic)
            == Ok::<Option<(u32, u32)>, FrameError>(None),
{
    let l = body.len() as u32;
    let h = header_bytes(magic, l);
    lemma_header_roundtrip(magic, l);
    assert(h.len() == FRAME_HEADER_LENGTH);
    let s = h + body + rest;
    assert(s.subrange(0, FRAME_HEADER_LENGTH as int) =~= h);
    let p = (h + body).take(cut);
    if cut >= FRAME_HEADER_LENGTH {
        assert(p.subrange(0, FRAME_HEADER_LENGTH as int) =~= h);
    }
}

/// Takes the decision of `frame_decision` on the buffered bytes `src`.
pub fn decode_frame(src: &[u8], magic: u32) -> (res: Result<Option<(u32, u32)>, FrameError>)
    ensures
        res == frame_decision(src@, magic),
{
    if src.len() < FRAME_HEADER_LENGTH {
        return Ok(None);
    }
    let head = vstd::slice::slice_subrange(src, 0, FRAME_HEADER_LENGTH);
    match decode_header(head) {
        Err(e) => Err(FrameError::Decode(e)),
        Ok((m, l)) => {
            if m != magic {
                Err(FrameError::BadMagic)
            } else if (src.len() as u64) < (l as u64) + (FRAME_HEADER_LENGTH as u64) {
                Ok(None)
            } else {
                Ok(Some((m, l)))
            }
        },
    }
}

} // verus!
