use hanashite::framing::{decode_frame, decode_header, encode_header, header_len, DecodeError, FrameError};
use hanashite::hanashite_message::codec::{CodecError, HanMessageCodec};
use hanashite::hanashite_message::protos::hanmessage::auth_response::ResultState;
use hanashite::hanashite_message::protos::hanmessage::han_message::Msg;
use hanashite::hanashite_message::protos::hanmessage::{Auth, StreamHeader};
use hanashite::hanashite_message::protos::{build_message, to_data, to_data_opt, try_uuid};
use hanashite::rust_server::clienthandler::message::{RawHanMessage, MessageError, AUTH, JOIN_FAIL};

#[test]
fn header_is_two_fixed32_fields() {
    let mut v = vec![];
    encode_header(0x8A71, 12345, &mut v);
    assert_eq!(vec![0x0D, 0x71, 0x8A, 0, 0, 0x15, 0x39, 0x30, 0, 0], v);
    assert_eq!(10, header_len(0x8A71, 12345));
    assert_eq!(Ok((0x8A71, 12345)), decode_header(&v));
}

#[test]
fn header_roundtrip_and_zero_fields() {
    for (m, l) in [(0u32, 0u32), (0x8A71, 0), (0, 7), (u32::MAX, 1)] {
        let mut v = vec![];
        encode_header(m, l, &mut v);
        assert_eq!(header_len(m, l), v.len());
        assert_eq!(Ok((m, l)), decode_header(&v));
    }
}

#[test]
fn header_decode_errors() {
    assert_eq!(Err(DecodeError), decode_header(&[0x0D, 1, 2]));
    assert_eq!(Err(DecodeError), decode_header(&[0x08, 1]));
}

#[test]
fn frame_decisions() {
    let mut v = vec![];
    encode_header(0x8A71, 2, &mut v);
    assert_eq!(Ok(None), decode_frame(&v[..5], 0x8A71));
    assert_eq!(Ok(None), decode_frame(&v, 0x8A71));
    v.extend_from_slice(&[1, 2]);
    assert_eq!(Ok(Some((0x8A71, 2))), decode_frame(&v, 0x8A71));
    assert_eq!(Err(FrameError::BadMagic), decode_frame(&v, 0x1234));
    assert_eq!(Err(FrameError::Decode(DecodeError)), decode_frame(&[0xFF; 12], 0x8A71));
}

#[test]
fn codec_decides_on_buffer() {
    let mut codec = HanMessageCodec();
    let mut v = vec![];
    codec.encode_header(3, &mut v);
    assert_eq!(Ok(None), codec.decode_frame(&v));
    v.extend_from_slice(&[7, 7, 7]);
    assert_eq!(Ok(Some(StreamHeader { magic: 0x8A71, length: 3 })), codec.decode_frame(&v));
    let mut bad = vec![];
    encode_header(1, 5, &mut bad);
    assert_eq!(Err(CodecError::InvalidMagic), codec.decode_frame(&bad));
}

#[test]
fn uuid_wire_form() {
    let id: u128 = 0x0102030405060708090a0b0c0d0e0f10;
    let bytes = to_data(&id);
    assert_eq!((1u8..=16).collect::<Vec<u8>>(), bytes);
    assert_eq!(Some(id), try_uuid(&bytes));
    assert_eq!(None, try_uuid(&vec![1, 2, 3]));
    assert_eq!(Vec::<u8>::new(), to_data_opt(&None));
    assert_eq!(bytes, to_data_opt(&Some(id)));
    let m = build_message(&Some(id), Msg::Auth(Auth { username: "u".to_string(), public_key: vec![] }));
    assert_eq!(bytes, m.message_id);
    assert_eq!(Some(Msg::Auth(Auth { username: "u".to_string(), public_key: vec![] })), m.msg);
}

#[test]
fn result_state_numbers() {
    assert_eq!(0, ResultState::Unknown.number());
    assert_eq!(1, ResultState::Success.number());
    assert_eq!(2, ResultState::BrokenKey.number());
    assert_eq!(3, ResultState::InvalidCredentials.number());
}

#[test]
fn raw_message_building() {
    let mut m = RawHanMessage::new(AUTH);
    assert_eq!(&[0x8A, 0x71, 0, 0, 0, 8, 0, 1][..], &m.bytes[..]);
    m.add_u8(5);
    m.add_i16(-2);
    assert_eq!(&[0x8A, 0x71, 0, 0, 0, 11, 0, 1, 5, 0xFF, 0xFE][..], &m.bytes[..]);
    m.add_string(&"hé".to_string());
    assert_eq!(&[0, 0, 0, 16][..], &m.bytes[2..6]);
    assert_eq!(&[0, 3, b'h', 0xC3, 0xA9][..], &m.bytes[11..]);
    m.add_blob(&[9, 9]);
    m.add_u32(0x01020304);
    m.add_i32(-1);
    m.add_u64(1);
    m.add_i64(-1);
    m.add_i8(-1);
    m.add_u16(0xBEEF);
    let n = m.bytes.len() as u32;
    assert_eq!(&n.to_be_bytes()[..], &m.bytes[2..6]);
    assert_eq!(&[0xFF, 0xBE, 0xEF][..], &m.bytes[m.bytes.len() - 3..]);
}

#[test]
fn raw_message_validation() {
    let m = RawHanMessage::new(JOIN_FAIL);
    assert_eq!(
        MessageError::InvalidData("Magic Bytes were wrong !".to_string()),
        RawHanMessage::validate(&m.bytes).unwrap_err()
    );
    let short = bytes::BytesMut::from(&[0x8Au8][..]);
    assert_eq!(Ok(false), RawHanMessage::validate(&short));
    let empty = bytes::BytesMut::new();
    assert_eq!(Ok(false), RawHanMessage::validate(&empty));
}

#[test]
fn raw_message_length_follows_size_field() {
    let mut m = RawHanMessage::new(AUTH);
    assert_eq!(8, m.len());
    m.add_u64(7);
    assert_eq!(16, m.len());
    assert_eq!(&[0, 0, 0, 16][..], &m.bytes[2..6]);
}

#[test]
fn header_decode_skips_unknown_fields() {
    let mut v = vec![];
    encode_header(0x8A71, 0, &mut v);
    v.extend_from_slice(&[0x18, 0x80, 0x80, 0x80, 0x01]);
    assert_eq!(10, v.len());
    assert_eq!(Ok((0x8A71, 0)), decode_header(&v));
    assert_eq!(Ok(Some((0x8A71, 0))), decode_frame(&v, 0x8A71));
    // a length-delimited field 4 of two bytes, then the length field
    let w = [0x22, 0x02, 0xAA, 0xBB, 0x15, 0x05, 0, 0, 0];
    assert_eq!(Ok((0, 5)), decode_header(&w));
    // a group with number 5 holding a varint field 1, then its end key
    let g = [0x2B, 0x08, 0x07, 0x2C, 0x0D, 1, 0, 0, 0];
    assert_eq!(Ok((1, 0)), decode_header(&g));
    // a fixed64 field 6
    let f = [0x31, 1, 2, 3, 4, 5, 6, 7, 8];
    assert_eq!(Ok((0, 0)), decode_header(&f));
}

#[test]
fn header_decode_refuses_what_protobuf_refuses() {
    assert_eq!(Err(DecodeError), decode_header(&[0x08, 1]));
    assert_eq!(Err(DecodeError), decode_header(&[0x0D, 1, 2]));
    assert_eq!(Err(DecodeError), decode_header(&[0x00, 1]));
    assert_eq!(Err(DecodeError), decode_header(&[0x2C]));
    assert_eq!(Err(DecodeError), decode_header(&[0x2B, 0x34]));
    assert_eq!(Err(DecodeError), decode_header(&[0x1E]));
    assert_eq!(Err(DecodeError), decode_header(&[0x22, 0x05, 1]));
    assert_eq!(Err(DecodeError), decode_header(&[0x18, 0x80]));
}
