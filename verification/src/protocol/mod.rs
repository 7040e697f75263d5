//! Wire-format signaling protocol: message types and binary codec.
//!
//! A frame is a header of 8 bytes (2-byte magic 0x4F50, 1-byte version 0x01,
//! 1-byte message type, 4-byte big-endian payload length) followed by the
//! payload.

pub mod codec;
pub mod messages;
pub mod msg_type;

pub use messages::{
    decode_header, decode_socketaddr, decode_string, decode_u16_be, decode_u32_be, encode_bye,
    encode_error, encode_header, encode_heartbeat, encode_register, encode_register_ack,
    encode_socketaddr, encode_string, encode_u16_be, encode_u32_be, FrameHeader, IpAddress,
    SocketAddress, MAGIC, VERSION,
};
