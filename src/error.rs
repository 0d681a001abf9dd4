use vstd::prelude::*;

verus! {

/// Why a packet could not be sent or received.
#[derive(Debug, Clone, Copy, PartialEq, Eq, Structural)]
pub enum PacketError {
    /// The stream ended before the bytes that a frame announces.
    Io,
    /// The value cannot be written as a frame.
    Encoding,
    /// The payload is not the encoding of exactly one value.
    Decoding,
    /// A length prefix asks for more bytes than the caller allows.
    Oversized,
}

} // verus!
