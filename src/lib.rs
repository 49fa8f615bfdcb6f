//! A codec for a length-prefixed, packet-oriented wire protocol: VarInt
//! integers, a serialization framework with exact sizes, and frame
//! decoders/encoders with an optional compressed framing.
pub mod buffer;
pub mod codec;
pub mod encoding;
pub mod packet;
pub mod varint;
pub mod zlib;
