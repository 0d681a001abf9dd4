use crate::bytes::{be_bytes, be_u32};
use crate::codec::Packet;
use crate::error::PacketError;
use vstd::prelude::*;

verus! {

/// The frame that carries `p`: its length as four big-endian bytes, then `p`.
pub open spec fn frame_of(p: Seq<u8>) -> Seq<u8> {
    be_bytes(p.len()) + p
}

/// Reads one frame from the front of a stream's bytes `s`: the payload and the
/// number of bytes the frame took, or `None` where `s` ends before the length
/// prefix or before the payload that it announces.
pub open spec fn frame_read(s: Seq<u8>) -> Option<(Seq<u8>, nat)> {
    if s.len() < 4 {
        None
    } else if s.len() < 4 + be_u32(s) {
        None
    } else {
        Some((s.subrange(4, 4 + be_u32(s) as int), 4 + be_u32(s)))
    }
}

/// The value that a payload holds, where it is the encoding of exactly one
/// value with nothing after it.
pub open spec fn decoded<T: Packet>(p: Seq<u8>) -> Option<T> {
    match T::parse(p) {
        Some((v, n)) => if n == p.len() {
            Some(v)
        } else {
            None
        },
        None => None,
    }
}

/// What receiving one packet from a stream's bytes `s` gives: the value and
/// the number of bytes of `s` that its frame took.
pub open spec fn received<T: Packet>(s: Seq<u8>) -> Result<(T, nat), PacketError> {
    match frame_read(s) {
        None => Err(PacketError::Io),
        Some((p, n)) => match decoded::<T>(p) {
            Some(v) => Ok((v, n)),
            None => Err(PacketError::Decoding),
        },
    }
}

/// Interprets a four-byte big-endian length prefix.
pub fn parse_length(length: [u8; 4]) -> (r: usize)
    ensures
        r == be_u32(length@),
{
    let b0 = length[0] as usize;
    let b1 = length[1] as usize;
    let b2 = length[2] as usize;
    let b3 = length[3] as usize;
    b0 * 0x100_0000 + b1 * 0x1_0000 + b2 * 0x100 + b3
}

/// Interprets a length prefix under a cap on the payload size, so that a
/// corrupt or hostile prefix is refused before a buffer is allocated for it.
pub fn parse_length_limited(length: [u8; 4], max: usize) -> (r: Result<usize, PacketError>)
    ensures
        be_u32(length@) <= max ==> r == Ok::<usize, PacketError>(be_u32(length@) as usize),
        be_u32(length@) > max ==> r == Err::<usize, PacketError>(PacketError::Oversized),
{
    let len = parse_length(length);
    if len > max {
        Err(PacketError::Oversized)
    } else {
        Ok(len)
    }
}

/// The four-byte big-endian prefix for a payload of `n` bytes.
pub fn length_prefix(n: u32) -> (r: [u8; 4])
    ensures
        r@ == be_bytes(n as nat),
{
    let r = [(n / 0x100_0000 % 256) as u8, (n / 0x1_0000 % 256) as u8, (n / 0x100 % 256) as u8, (
    n % 256) as u8];
    assert(r@ =~= be_bytes(n as nat));
    r
}

/// Encodes `value` and frames it: the bytes to write to the stream. A payload
/// longer than a 32-bit length can state is refused.
pub fn encode_frame<T: Packet>(value: &T) -> (r: Result<Vec<u8>, PacketError>)
    ensures
        value.wire().len() <= u32::MAX ==> r is Ok && r->Ok_0@ == frame_of(value.wire()),
        value.wire().len() > u32::MAX ==> r == Err::<Vec<u8>, PacketError>(PacketError::Encoding),
{
    let mut payload = match value.encode() {
        Ok(b) => b,
        Err(e) => return Err(e),
    };
    if payload.len() > 0xffff_ffff {
        return Err(PacketError::Encoding);
    }
    let prefix = length_prefix(payload.len() as u32);
    let mut out: Vec<u8> = Vec::new();
    let mut i: usize = 0;
    while i < 4
        invariant
            0 <= i <= 4,
            out@ == prefix@.subrange(0, i as int),
        decreases 4 - i,
    {
        out.push(prefix[i]);
        i = i + 1;
        assert(out@ =~= prefix@.subrange(0, i as int));
    }
    out.append(&mut payload);
    Ok(out)
}

/// Reads one frame from the front of the bytes `stream`: the payload and the
/// number of bytes that the frame took.
pub fn read_frame(stream: &[u8]) -> (r: Result<(Vec<u8>, usize), PacketError>)
    ensures
        match r {
            Ok((p, n)) => frame_read(stream@) == Some((p@, n as nat)),
            Err(e) => frame_read(stream@) is None && e == PacketError::Io,
        },
{
    if stream.len() < 4 {
        return Err(PacketError::Io);
    }
    let len = parse_length([stream[0], stream[1], stream[2], stream[3]]);
    if stream.len() - 4 < len {
        return Err(PacketError::Io);
    }
    let payload = vstd::slice::slice_to_vec(vstd::slice::slice_subrange(stream, 4, 4 + len));
    Ok((payload, 4 + len))
}

/// Decodes a payload that holds exactly one value.
pub fn parse_packet<T: Packet>(packet: Vec<u8>) -> (r: Result<T, PacketError>)
    ensures
        match r {
            Ok(v) => decoded::<T>(packet@) == Some(v),
            Err(e) => decoded::<T>(packet@) is None && e == PacketError::Decoding,
        },
{
    match T::decode(packet.as_slice()) {
        Ok((v, n)) => if n == packet.len() {
            Ok(v)
        } else {
            Err(PacketError::Decoding)
        },
        Err(e) => Err(e),
    }
}

/// Receives one packet from the front of the bytes `stream`: the value and the
/// number of bytes that its frame took.
pub fn recv_packet_from<T: Packet>(stream: &[u8]) -> (r: Result<(T, usize), PacketError>)
    ensures
        match r {
            Ok((v, n)) => received::<T>(stream@) == Ok::<(T, nat), PacketError>((v, n as nat)),
            Err(e) => received::<T>(stream@) == Err::<(T, nat), PacketError>(e),
        },
{
    let (payload, n) = match read_frame(stream) {
        Ok(x) => x,
        Err(e) => return Err(e),
    };
    match parse_packet::<T>(payload) {
        Ok(v) => Ok((v, n)),
        Err(e) => Err(e),
    }
}

} // verus!
