//! Length-prefixed packets over an ordered byte stream.
//!
//! A frame is a four-byte big-endian payload length followed by the payload,
//! and a payload is the encoding of a value by a [`codec::Packet`] codec.
//! The I/O itself is left to the caller: this crate builds the bytes to write
//! and interprets the bytes that were read.
pub mod bytes;
pub mod codec;
pub mod error;


pub use codec::Packet;
pub use error::PacketError;

pub mod frame;
pub mod laws;
pub use frame::{encode_frame, length_prefix, parse_length, parse_length_limited, parse_packet, read_frame, recv_packet_from};
