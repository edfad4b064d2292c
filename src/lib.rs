//! A length-prefixed binary message protocol: an eight-byte header (type code,
//! three reserved bytes, big-endian signed content length) followed by the body.

pub mod codec;
pub mod wire;

pub use codec::{
    decode_frame, decode_payload, read_message, response_to, write_message, ByteStream,
    DecodeError, EncodeError, Frame, Message, MessageType, MAX_CONTENT_LENGTH,
};
pub use wire::{decode_body, decode_header, encode_header, HEADER_LEN};
