//! The stream codec: a message is framed by a header that names its length.

use vstd::prelude::*;
use crate::framing::{decode_frame, encode_header, frame_decision, header_bytes, FrameError};
use super::protos::MAGIC_HEADER;
use super::protos::hanmessage::StreamHeader;

verus! {

/// Codec of the control stream.
pub struct HanMessageCodec();

/// Why the codec refused the buffered bytes.
#[derive(Debug, Clone, Copy, PartialEq, Eq)]
pub enum CodecError {
    /// The header is not a valid protocol-buffers message.
    Decode,
    /// The header does not carry the magic number ("Invalid Magic Number !").
    InvalidMagic,
}

/// The codec's decision on the buffered bytes `s`.
pub open spec fn codec_decision(s: Seq<u8>) -> Result<Option<StreamHeader>, CodecError> {
    match frame_decision(s, MAGIC_HEADER) {
        Ok(None) => Ok(None),
        Ok(Some((m, l))) => Ok(Some(StreamHeader { magic: m, length: l })),
        Err(FrameError::Decode(_)) => Err(CodecError::Decode),
        Err(FrameError::BadMagic) => Err(CodecError::InvalidMagic),
    }
}

impl HanMessageCodec {
    /// Looks at the bytes buffered so far: `Ok(None)` asks for more bytes;
    /// `Ok(Some(header))` says that a whole message follows the first
    /// `HEADER_LENGTH` bytes, which the caller skips before reading it.
    pub fn decode_frame(&mut self, src: &[u8]) -> (res: Result<Option<StreamHeader>, CodecError>)
        ensures
            res == codec_decision(src@),
    {
        match decode_frame(src, MAGIC_HEADER) {
            Ok(None) => Ok(None),
            Ok(Some((m, l))) => Ok(Some(StreamHeader { magic: m, length: l })),
            Err(FrameError::Decode(_)) => Err(CodecError::Decode),
            Err(FrameError::BadMagic) => Err(CodecError::InvalidMagic),
        }
    }

    /// Appends the header of a message whose encoding is `body_len` bytes
    /// long; the length field holds `body_len` cut to 32 bits.
    pub fn encode_header(&mut self, body_len: usize, dst: &mut Vec<u8>)
        ensures
            final(dst)@ == old(dst)@ + header_bytes(MAGIC_HEADER, body_len as u32),
    {
        encode_header(MAGIC_HEADER, #[verifier::truncate] (body_len as u32), dst);
    }
}

} // verus!
