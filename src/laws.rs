use crate::bytes::{be_bytes, be_u32, lemma_be_round_trip};
use crate::codec::Packet;
use crate::error::PacketError;
use crate::frame::{decoded, frame_of, frame_read, received};
use vstd::prelude::*;

verus! {

/// Decoding the encoding of a value gives the value back.
pub proof fn lemma_decode_encode<T: Packet>(v: T)
    ensures
        decoded::<T>(v.wire()) == Some(v),
{
    v.lemma_round_trip(Seq::empty());
    assert(v.wire() + Seq::empty() =~= v.wire());
}

/// Reading a frame from a stream that starts with the frame of `p` gives `p`
/// back, and takes the four prefix bytes and `p`, whatever follows.
pub proof fn lemma_frame_round_trip(p: Seq<u8>, rest: Seq<u8>)
    requires
        p.len() <= u32::MAX,
    ensures
        frame_read(frame_of(p) + rest) == Some((p, p.len() + 4)),
{
    lemma_be_round_trip(p.len());
    let s = frame_of(p) + rest;
    assert(be_u32(s) == be_u32(be_bytes(p.len())));
    assert(s.subrange(4, 4 + p.len() as int) =~= p);
}

/// Sending a value and receiving from the same stream gives the value back,
/// having taken exactly its frame.
pub proof fn lemma_send_receive<T: Packet>(v: T, rest: Seq<u8>)
    requires
        v.wire().len() <= u32::MAX,
    ensures
        received::<T>(frame_of(v.wire()) + rest) == Ok::<(T, nat), PacketError>(
            (v, v.wire().len() + 4),
        ),
{
    lemma_frame_round_trip(v.wire(), rest);
    lemma_decode_encode(v);
}

/// A zero length prefix gives an empty payload and no error.
pub proof fn lemma_zero_length(rest: Seq<u8>)
    ensures
        frame_read(seq![0u8, 0u8, 0u8, 0u8] + rest) == Some((Seq::<u8>::empty(), 4nat)),
{
    let s = seq![0u8, 0u8, 0u8, 0u8] + rest;
    assert(s.subrange(4, 4) =~= Seq::<u8>::empty());
}

/// The largest length prefix asks for 4294967295 payload bytes: a stream that
/// ends before them gives an I/O error.
pub proof fn lemma_max_length_short<T: Packet>(body: Seq<u8>)
    requires
        body.len() < 0xffff_ffff,
    ensures
        received::<T>(seq![0xffu8, 0xffu8, 0xffu8, 0xffu8] + body) == Err::<(T, nat), PacketError>(
            PacketError::Io,
        ),
{
    let s = seq![0xffu8, 0xffu8, 0xffu8, 0xffu8] + body;
    assert(be_u32(s) == 0xffff_ffff);
}

/// A stream that ends after the length prefix of a frame but before the whole
/// payload gives an I/O error, never a value.
pub proof fn lemma_truncated<T: Packet>(p: Seq<u8>, k: nat)
    requires
        p.len() <= u32::MAX,
        4 <= k < p.len() + 4,
    ensures
        received::<T>(frame_of(p).subrange(0, k as int)) == Err::<(T, nat), PacketError>(
            PacketError::Io,
        ),
{
    lemma_be_round_trip(p.len());
    let s = frame_of(p).subrange(0, k as int);
    assert(be_u32(s) == be_u32(be_bytes(p.len())));
}

} // verus!
