use crate::bytes::{le_bytes, le_value, lemma_le_bytes_len, lemma_le_round_trip, pow256};
use crate::error::PacketError;
use bincode::error::{DecodeError, EncodeError};
use vstd::prelude::*;

verus! {

#[verifier::external_type_specification]
#[verifier::external_body]
pub struct ExEncodeError(EncodeError);

#[verifier::external_type_specification]
#[verifier::external_body]
pub struct ExDecodeError(DecodeError);

/// A value that can travel as the payload of a frame.
///
/// `wire` is the encoding of a value; `parse` reads one value from the front
/// of a byte sequence and says how many bytes it took.
pub trait Packet: Sized {
    spec fn wire(&self) -> Seq<u8>;

    spec fn parse(b: Seq<u8>) -> Option<(Self, nat)>;

    fn encode(&self) -> (r: Result<Vec<u8>, PacketError>)
        ensures
            r matches Ok(b) && b@ == self.wire(),
    ;

    fn decode(b: &[u8]) -> (r: Result<(Self, usize), PacketError>)
        ensures
            match r {
                Ok((v, n)) => Self::parse(b@) == Some((v, n as nat)),
                Err(e) => Self::parse(b@) is None && e == PacketError::Decoding,
            },
    ;

    /// A value is never read from more bytes than there are.
    proof fn lemma_parse_len(b: Seq<u8>)
        ensures
            Self::parse(b) matches Some((v, n)) ==> n <= b.len(),
    ;

    /// Reading the encoding of a value, whatever follows it, gives the value
    /// back and consumes exactly its encoding.
    proof fn lemma_round_trip(&self, rest: Seq<u8>)
        ensures
            Self::parse(self.wire() + rest) == Some((*self, self.wire().len())),
    ;
}

/// The variable-length integer encoding of bincode's standard configuration:
/// one byte below 251, otherwise a marker byte and two, four or eight
/// little-endian bytes.
pub open spec fn varint(v: nat) -> Seq<u8> {
    if v <= 250 {
        seq![v as u8]
    } else if v <= 0xffff {
        seq![251u8] + le_bytes(v, 2)
    } else if v <= 0xffff_ffff {
        seq![252u8] + le_bytes(v, 4)
    } else {
        seq![253u8] + le_bytes(v, 8)
    }
}

/// Reads a variable-length integer of at most `width` bytes from the front of
/// `b`: the value and the number of bytes taken. A marker for a wider integer
/// than `width` is refused, a narrower one is accepted.
pub open spec fn varint_parse(b: Seq<u8>, width: nat) -> Option<(nat, nat)> {
    if b.len() == 0 {
        None
    } else if b[0] <= 250 {
        Some((b[0] as nat, 1))
    } else if b[0] == 251 && width >= 2 {
        if b.len() >= 3 {
            Some((le_value(b.subrange(1, 3)), 3))
        } else {
            None
        }
    } else if b[0] == 252 && width >= 4 {
        if b.len() >= 5 {
            Some((le_value(b.subrange(1, 5)), 5))
        } else {
            None
        }
    } else if b[0] == 253 && width >= 8 {
        if b.len() >= 9 {
            Some((le_value(b.subrange(1, 9)), 9))
        } else {
            None
        }
    } else {
        None
    }
}

pub proof fn lemma_varint_round_trip(v: nat, width: nat, rest: Seq<u8>)
    requires
        width == 2 || width == 4 || width == 8,
        v < pow256(width),
    ensures
        varint_parse(varint(v) + rest, width) == Some((v, varint(v).len())),
        varint(v).len() <= width + 1,
{
    reveal_with_fuel(pow256, 9);
    let b = varint(v) + rest;
    if v <= 250 {
    } else if v <= 0xffff {
        lemma_le_bytes_len(v, 2);
        lemma_le_round_trip(v, 2);
        assert(b.subrange(1, 3) =~= le_bytes(v, 2));
    } else if v <= 0xffff_ffff {
        lemma_le_bytes_len(v, 4);
        lemma_le_round_trip(v, 4);
        assert(b.subrange(1, 5) =~= le_bytes(v, 4));
    } else {
        lemma_le_bytes_len(v, 8);
        lemma_le_round_trip(v, 8);
        assert(b.subrange(1, 9) =~= le_bytes(v, 8));
    }
}

/// Relies on bincode::encode_to_vec under the standard configuration: a `u8`
/// is written as its one byte, and writing into a `Vec` does not fail.
#[verifier::external_body]
fn encode_u8(v: u8) -> (r: Result<Vec<u8>, EncodeError>)
    ensures
        r is Ok,
        r->Ok_0@ == seq![v],
{
    bincode::encode_to_vec(v, bincode::config::standard())
}

/// Relies on bincode::decode_from_slice under the standard configuration: a
/// `u8` is the first byte, and an empty slice is an error.
#[verifier::external_body]
fn decode_u8(b: &[u8]) -> (r: Result<(u8, usize), DecodeError>)
    ensures
        match r {
            Ok((v, n)) => b@.len() > 0 && v == b@[0] && n == 1,
            Err(_) => b@.len() == 0,
        },
{
    bincode::decode_from_slice(b, bincode::config::standard())
}

impl Packet for u8 {
    open spec fn wire(&self) -> Seq<u8> {
        seq![*self]
    }

    open spec fn parse(b: Seq<u8>) -> Option<(u8, nat)> {
        if b.len() > 0 {
            Some((b[0], 1))
        } else {
            None
        }
    }

    fn encode(&self) -> (r: Result<Vec<u8>, PacketError>) {
        match encode_u8(*self) {
            Ok(b) => Ok(b),
            Err(_) => Err(PacketError::Encoding),
        }
    }

    fn decode(b: &[u8]) -> (r: Result<(u8, usize), PacketError>) {
        match decode_u8(b) {
            Ok((v, n)) => Ok((v, n)),
            Err(_) => Err(PacketError::Decoding),
        }
    }

    proof fn lemma_parse_len(b: Seq<u8>) {
    }

    proof fn lemma_round_trip(&self, rest: Seq<u8>) {
    }
}

/// Relies on bincode::encode_to_vec under the standard configuration: a `u16`
/// is written as a variable-length integer, and writing into a `Vec` does not
/// fail.
#[verifier::external_body]
fn encode_u16(v: u16) -> (r: Result<Vec<u8>, EncodeError>)
    ensures
        r is Ok,
        r->Ok_0@ == varint(v as nat),
{
    bincode::encode_to_vec(v, bincode::config::standard())
}

/// Relies on bincode::decode_from_slice under the standard configuration: a
/// `u16` is read as a variable-length integer with a body of at most 2 bytes (a
/// wider marker is an error), and the count is the number of bytes taken.
#[verifier::external_body]
fn decode_u16(b: &[u8]) -> (r: Result<(u16, usize), DecodeError>)
    ensures
        match r {
            Ok((v, n)) => varint_parse(b@, 2) == Some((v as nat, n as nat)),
            Err(_) => varint_parse(b@, 2) is None,
        },
{
    bincode::decode_from_slice(b, bincode::config::standard())
}

impl Packet for u16 {
    open spec fn wire(&self) -> Seq<u8> {
        varint(*self as nat)
    }

    open spec fn parse(b: Seq<u8>) -> Option<(u16, nat)> {
        match varint_parse(b, 2) {
            Some((v, n)) => Some((v as u16, n)),
            None => None,
        }
    }

    fn encode(&self) -> (r: Result<Vec<u8>, PacketError>) {
        match encode_u16(*self) {
            Ok(b) => Ok(b),
            Err(_) => Err(PacketError::Encoding),
        }
    }

    fn decode(b: &[u8]) -> (r: Result<(u16, usize), PacketError>) {
        match decode_u16(b) {
            Ok((v, n)) => Ok((v, n)),
            Err(_) => Err(PacketError::Decoding),
        }
    }

    proof fn lemma_parse_len(b: Seq<u8>) {
    }

    proof fn lemma_round_trip(&self, rest: Seq<u8>) {
        reveal_with_fuel(pow256, 9);
        lemma_varint_round_trip(*self as nat, 2, rest);
    }
}

/// Relies on bincode::encode_to_vec under the standard configuration: a `u32`
/// is written as a variable-length integer, and writing into a `Vec` does not
/// fail.
#[verifier::external_body]
fn encode_u32(v: u32) -> (r: Result<Vec<u8>, EncodeError>)
    ensures
        r is Ok,
        r->Ok_0@ == varint(v as nat),
{
    bincode::encode_to_vec(v, bincode::config::standard())
}

/// Relies on bincode::decode_from_slice under the standard configuration: a
/// `u32` is read as a variable-length integer with a body of at most 4 bytes (a
/// wider marker is an error), and the count is the number of bytes taken.
#[verifier::external_body]
fn decode_u32(b: &[u8]) -> (r: Result<(u32, usize), DecodeError>)
    ensures
        match r {
            Ok((v, n)) => varint_parse(b@, 4) == Some((v as nat, n as nat)),
            Err(_) => varint_parse(b@, 4) is None,
        },
{
    bincode::decode_from_slice(b, bincode::config::standard())
}

impl Packet for u32 {
    open spec fn wire(&self) -> Seq<u8> {
        varint(*self as nat)
    }

    open spec fn parse(b: Seq<u8>) -> Option<(u32, nat)> {
        match varint_parse(b, 4) {
            Some((v, n)) => Some((v as u32, n)),
            None => None,
        }
    }

    fn encode(&self) -> (r: Result<Vec<u8>, PacketError>) {
        match encode_u32(*self) {
            Ok(b) => Ok(b),
            Err(_) => Err(PacketError::Encoding),
        }
    }

    fn decode(b: &[u8]) -> (r: Result<(u32, usize), PacketError>) {
        match decode_u32(b) {
            Ok((v, n)) => Ok((v, n)),
            Err(_) => Err(PacketError::Decoding),
        }
    }

    proof fn lemma_parse_len(b: Seq<u8>) {
    }

    proof fn lemma_round_trip(&self, rest: Seq<u8>) {
        reveal_with_fuel(pow256, 9);
        lemma_varint_round_trip(*self as nat, 4, rest);
    }
}

/// Relies on bincode::encode_to_vec under the standard configuration: a `u64`
/// is written as a variable-length integer, and writing into a `Vec` does not
/// fail.
#[verifier::external_body]
fn encode_u64(v: u64) -> (r: Result<Vec<u8>, EncodeError>)
    ensures
        r is Ok,
        r->Ok_0@ == varint(v as nat),
{
    bincode::encode_to_vec(v, bincode::config::standard())
}

/// Relies on bincode::decode_from_slice under the standard configuration: a
/// `u64` is read as a variable-length integer with a body of at most 8 bytes (a
/// wider marker is an error), and the count is the number of bytes taken.
#[verifier::external_body]
fn decode_u64(b: &[u8]) -> (r: Result<(u64, usize), DecodeError>)
    ensures
        match r {
            Ok((v, n)) => varint_parse(b@, 8) == Some((v as nat, n as nat)),
            Err(_) => varint_parse(b@, 8) is None,
        },
{
    bincode::decode_from_slice(b, bincode::config::standard())
}

impl Packet for u64 {
    open spec fn wire(&self) -> Seq<u8> {
        varint(*self as nat)
    }

    open spec fn parse(b: Seq<u8>) -> Option<(u64, nat)> {
        match varint_parse(b, 8) {
            Some((v, n)) => Some((v as u64, n)),
            None => None,
        }
    }

    fn encode(&self) -> (r: Result<Vec<u8>, PacketError>) {
        match encode_u64(*self) {
            Ok(b) => Ok(b),
            Err(_) => Err(PacketError::Encoding),
        }
    }

    fn decode(b: &[u8]) -> (r: Result<(u64, usize), PacketError>) {
        match decode_u64(b) {
            Ok((v, n)) => Ok((v, n)),
            Err(_) => Err(PacketError::Decoding),
        }
    }

    proof fn lemma_parse_len(b: Seq<u8>) {
    }

    proof fn lemma_round_trip(&self, rest: Seq<u8>) {
        reveal_with_fuel(pow256, 9);
        lemma_varint_round_trip(*self as nat, 8, rest);
    }
}

/// Two values one after the other, as bincode writes a tuple or a record of
/// two fields: the first field's bytes, then the second's.
impl<A: Packet, B: Packet> Packet for (A, B) {
    open spec fn wire(&self) -> Seq<u8> {
        self.0.wire() + self.1.wire()
    }

    open spec fn parse(b: Seq<u8>) -> Option<((A, B), nat)> {
        match A::parse(b) {
            Some((a, n)) => match B::parse(b.subrange(n as int, b.len() as int)) {
                Some((c, m)) => Some(((a, c), n + m)),
                None => None,
            },
            None => None,
        }
    }

    fn encode(&self) -> (r: Result<Vec<u8>, PacketError>) {
        let mut first = match self.0.encode() {
            Ok(b) => b,
            Err(e) => return Err(e),
        };
        let mut second = match self.1.encode() {
            Ok(b) => b,
            Err(e) => return Err(e),
        };
        first.append(&mut second);
        Ok(first)
    }

    fn decode(b: &[u8]) -> (r: Result<((A, B), usize), PacketError>) {
        proof {
            A::lemma_parse_len(b@);
        }
        let (a, n) = match A::decode(b) {
            Ok(x) => x,
            Err(e) => return Err(e),
        };
        let tail = vstd::slice::slice_subrange(b, n, b.len());
        proof {
            B::lemma_parse_len(tail@);
        }
        let (c, m) = match B::decode(tail) {
            Ok(x) => x,
            Err(e) => return Err(e),
        };
        Ok(((a, c), n + m))
    }

    proof fn lemma_parse_len(b: Seq<u8>) {
        A::lemma_parse_len(b);
        if let Some((a, n)) = A::parse(b) {
            B::lemma_parse_len(b.subrange(n as int, b.len() as int));
        }
    }

    proof fn lemma_round_trip(&self, rest: Seq<u8>) {
        let b = self.0.wire() + self.1.wire() + rest;
        assert(b =~= self.0.wire() + (self.1.wire() + rest));
        self.0.lemma_round_trip(self.1.wire() + rest);
        let n = self.0.wire().len();
        assert(b.subrange(n as int, b.len() as int) =~= self.1.wire() + rest);
        self.1.lemma_round_trip(rest);
    }
}

} // verus!
