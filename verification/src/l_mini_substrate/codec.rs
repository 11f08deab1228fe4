//! Encoding of typed values as bytes, and decoding of bytes back into values.
//!
//! Integers are encoded by the SCALE codec, which writes them in little-endian order at
//! their fixed width. Composite values are framed here, field after field.

use vstd::bytes::{
    lemma_auto_spec_u32_to_from_le_bytes, lemma_auto_spec_u64_to_from_le_bytes,
    spec_u32_from_le_bytes, spec_u32_to_le_bytes, spec_u64_from_le_bytes, spec_u64_to_le_bytes,
};
use vstd::prelude::*;

verus! {

/// A value that can be written as bytes.
pub trait Encode {
    /// The bytes that stand for this value.
    spec fn encoding(&self) -> Seq<u8>;

    /// Writes this value as bytes.
    fn encode(&self) -> (bytes: Vec<u8>)
        ensures
            bytes@ == self.encoding(),
    ;
}

/// A value that can be read back from the bytes it was written as.
pub trait Decode: Encode + Sized {
    /// The value that stands at the front of `bytes`, if there is one, with the number of
    /// bytes it takes up. Bytes that follow it play no part.
    spec fn decoding(bytes: Seq<u8>) -> Option<(Self, nat)>;

    /// A value read from the front of `bytes` takes up no more than `bytes` holds.
    proof fn lemma_decoding_fits(bytes: Seq<u8>)
        ensures
            Self::decoding(bytes) matches Some((_, taken)) ==> taken <= bytes.len(),
    ;

    /// Reading what was written gives the value back, whatever follows it.
    proof fn lemma_round_trip(value: Self, rest: Seq<u8>)
        ensures
            Self::decoding(value.encoding() + rest) == Some((value, value.encoding().len())),
    ;

    /// Reads the value at the front of `bytes`, and says how many bytes it took up.
    fn decode_front(bytes: &[u8]) -> (read: Option<(Self, usize)>)
        ensures
            match read {
                Some((value, taken)) => Self::decoding(bytes@) == Some((value, taken as nat)),
                None => Self::decoding(bytes@) is None,
            },
    ;
}

/// The value that `bytes` decode to: the one at their front. Bytes that cannot be read
/// decode to nothing.
pub open spec fn decoded<V: Decode>(bytes: Seq<u8>) -> Option<V> {
    match V::decoding(bytes) {
        Some((value, _)) => Some(value),
        None => None,
    }
}

/// Decodes `bytes`, or returns `None` where they cannot be read.
pub fn decode<V: Decode>(bytes: &[u8]) -> (value: Option<V>)
    ensures
        value == decoded::<V>(bytes@),
{
    match V::decode_front(bytes) {
        Some((value, _)) => Some(value),
        None => None,
    }
}

/// Decoding an encoded value gives that value back.
pub proof fn lemma_decode_encode<V: Decode>(value: V)
    ensures
        decoded::<V>(value.encoding()) == Some(value),
{
    V::lemma_round_trip(value, Seq::empty());
    assert(value.encoding() + Seq::<u8>::empty() =~= value.encoding());
}

/// The SCALE encoding of a `u32`, made by `parity_scale_codec::Encode::encode`: its four
/// bytes, least significant first.
#[verifier::external_body]
fn scale_encode_u32(value: u32) -> (bytes: Vec<u8>)
    ensures
        bytes@ == spec_u32_to_le_bytes(value),
{
    parity_scale_codec::Encode::encode(&value)
}

/// The SCALE encoding of a `u64`, made by `parity_scale_codec::Encode::encode`: its eight
/// bytes, least significant first.
#[verifier::external_body]
fn scale_encode_u64(value: u64) -> (bytes: Vec<u8>)
    ensures
        bytes@ == spec_u64_to_le_bytes(value),
{
    parity_scale_codec::Encode::encode(&value)
}

/// The `u64` that `parity_scale_codec::Decode::decode` reads from a byte slice: the
/// little-endian value of the first eight bytes, or nothing where there are fewer.
#[verifier::external_body]
fn scale_decode_u64(bytes: &[u8]) -> (value: Option<u64>)
    ensures
        value == if bytes@.len() >= 8 {
            Some(spec_u64_from_le_bytes(bytes@.subrange(0, 8)))
        } else {
            None
        },
{
    let mut input: &[u8] = bytes;
    parity_scale_codec::Decode::decode(&mut input).ok()
}

/// The `u32` that `parity_scale_codec::Decode::decode` reads from a byte slice: the
/// little-endian value of the first four bytes, or nothing where there are fewer.
#[verifier::external_body]
fn scale_decode_u32(bytes: &[u8]) -> (value: Option<u32>)
    ensures
        value == if bytes@.len() >= 4 {
            Some(spec_u32_from_le_bytes(bytes@.subrange(0, 4)))
        } else {
            None
        },
{
    let mut input: &[u8] = bytes;
    parity_scale_codec::Decode::decode(&mut input).ok()
}

impl Encode for u32 {
    open spec fn encoding(&self) -> Seq<u8> {
        spec_u32_to_le_bytes(*self)
    }

    fn encode(&self) -> (bytes: Vec<u8>) {
        scale_encode_u32(*self)
    }
}

impl Decode for u32 {
    open spec fn decoding(bytes: Seq<u8>) -> Option<(u32, nat)> {
        if bytes.len() >= 4 {
            Some((spec_u32_from_le_bytes(bytes.subrange(0, 4)), 4nat))
        } else {
            None
        }
    }

    proof fn lemma_decoding_fits(bytes: Seq<u8>) {
    }

    proof fn lemma_round_trip(value: u32, rest: Seq<u8>) {
        lemma_auto_spec_u32_to_from_le_bytes();
        let written = spec_u32_to_le_bytes(value);
        assert(written.len() == 4);
        assert((written + rest).subrange(0, 4) =~= written);
    }

    fn decode_front(bytes: &[u8]) -> (read: Option<(u32, usize)>) {
        match scale_decode_u32(bytes) {
            Some(value) => Some((value, 4)),
            None => None,
        }
    }
}

impl Encode for u64 {
    open spec fn encoding(&self) -> Seq<u8> {
        spec_u64_to_le_bytes(*self)
    }

    fn encode(&self) -> (bytes: Vec<u8>) {
        scale_encode_u64(*self)
    }
}

impl Decode for u64 {
    open spec fn decoding(bytes: Seq<u8>) -> Option<(u64, nat)> {
        if bytes.len() >= 8 {
            Some((spec_u64_from_le_bytes(bytes.subrange(0, 8)), 8nat))
        } else {
            None
        }
    }

    proof fn lemma_decoding_fits(bytes: Seq<u8>) {
    }

    proof fn lemma_round_trip(value: u64, rest: Seq<u8>) {
        lemma_auto_spec_u64_to_from_le_bytes();
        let written = spec_u64_to_le_bytes(value);
        assert((written + rest).subrange(0, 8) =~= written);
    }

    fn decode_front(bytes: &[u8]) -> (read: Option<(u64, usize)>) {
        match scale_decode_u64(bytes) {
            Some(value) => Some((value, 8)),
            None => None,
        }
    }
}

/// Two `u32` values with the same encoding are equal.
pub proof fn lemma_u32_encoding_injective(a: u32, b: u32)
    requires
        a.encoding() == b.encoding(),
    ensures
        a == b,
{
    lemma_auto_spec_u32_to_from_le_bytes();
    assert(spec_u32_to_le_bytes(a).len() == 4 && spec_u32_from_le_bytes(spec_u32_to_le_bytes(a))
        == a);
    assert(spec_u32_to_le_bytes(b).len() == 4 && spec_u32_from_le_bytes(spec_u32_to_le_bytes(b))
        == b);
}

} // verus!
