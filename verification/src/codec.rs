//! The serialization contract a data structure meets to take part in
//! upgrades and snapshots, and a small fixed-width record that meets it.

use vstd::prelude::*;

use crate::bytes::{
    lemma_u64_be_bytes_round_trip, u64_be_bytes, u64_from_be_byte_slice, u64_from_be_bytes,
    u64_to_be_byte_vec,
};

verus! {

/// How a data structure is serialized for the upgrades and for the
/// snapshots: a pair of total functions between the value and its bytes,
/// each failing with a string-tagged error.
///
/// `spec_forward` and `spec_backward` fix each implementation's encoding:
/// the executable `forward` and `backward` return `Ok` exactly where the
/// specification functions hold a value, and return that value's bytes or
/// that byte sequence's value.
///
/// An implementation the verifier reads overrides the two specification
/// functions to pin its encoding down. The defaults leave the codec
/// unspecified — no encoding, no decodable bytes — for implementations
/// that live outside the verifier, of which nothing is proved.
pub trait Serializable: Sized {
    /// The encoding of this value, if it has one.
    open spec fn spec_forward(&self) -> Option<Seq<u8>> {
        None
    }

    /// The value these bytes decode to, if any.
    open spec fn spec_backward(b: Seq<u8>) -> Option<Self> {
        None
    }

    /// Serializes this value.
    fn forward(&self) -> (res: Result<Vec<u8>, String>)
        ensures
            match res {
                Ok(v) => self.spec_forward() == Some(v@),
                Err(_) => self.spec_forward() is None,
            },
    ;

    /// Deserializes a value from the bytes.
    fn backward(b: &[u8]) -> (res: Result<Self, String>)
        ensures
            match res {
                Ok(v) => Self::spec_backward(b@) == Some(v),
                Err(_) => Self::spec_backward(b@) is None,
            },
    ;
}

/// A record of two integers with a fixed sixteen-byte big-endian
/// encoding: the library's own [`Serializable`] implementation.
#[derive(Clone, Copy, Debug, PartialEq, Eq, Structural)]
pub struct PairData {
    pub field_one: u64,
    pub field_two: u64,
}

impl Serializable for PairData {
    open spec fn spec_forward(&self) -> Option<Seq<u8>> {
        Some(u64_be_bytes(self.field_one) + u64_be_bytes(self.field_two))
    }

    open spec fn spec_backward(b: Seq<u8>) -> Option<Self> {
        if b.len() == 16 {
            Some(
                PairData {
                    field_one: u64_from_be_bytes(b.subrange(0, 8)),
                    field_two: u64_from_be_bytes(b.subrange(8, 16)),
                },
            )
        } else {
            None
        }
    }

    fn forward(&self) -> (res: Result<Vec<u8>, String>) {
        let mut v: Vec<u8> = u64_to_be_byte_vec(self.field_one);
        let mut tail: Vec<u8> = u64_to_be_byte_vec(self.field_two);
        v.append(&mut tail);
        proof {
            assert(v@ =~= u64_be_bytes(self.field_one) + u64_be_bytes(self.field_two));
        }
        Ok(v)
    }

    fn backward(b: &[u8]) -> (res: Result<Self, String>) {
        if b.len() != 16 {
            return Err("a PairData encoding is exactly 16 bytes".to_string());
        }
        let field_one: u64 = u64_from_be_byte_slice(b, 0);
        let field_two: u64 = u64_from_be_byte_slice(b, 8);
        Ok(PairData { field_one, field_two })
    }
}

/// A record with no fields, encoded as the empty byte string: the shape
/// a value type starts from before a schema evolution gives it fields.
#[derive(Clone, Copy, Debug, PartialEq, Eq, Structural)]
pub struct EmptyData;

impl Serializable for EmptyData {
    open spec fn spec_forward(&self) -> Option<Seq<u8>> {
        Some(Seq::<u8>::empty())
    }

    open spec fn spec_backward(b: Seq<u8>) -> Option<Self> {
        if b.len() == 0 {
            Some(EmptyData)
        } else {
            None
        }
    }

    fn forward(&self) -> (res: Result<Vec<u8>, String>) {
        Ok(Vec::new())
    }

    fn backward(b: &[u8]) -> (res: Result<Self, String>) {
        if b.len() == 0 {
            Ok(EmptyData)
        } else {
            Err("an EmptyData encoding is empty".to_string())
        }
    }
}

/// Decoding [`EmptyData`]'s zero-length encoding gives the record back:
/// an empty payload still round-trips through the codec.
pub proof fn lemma_empty_data_round_trip(v: EmptyData)
    ensures
        v.spec_forward() == Some(Seq::<u8>::empty()),
        EmptyData::spec_backward(v.spec_forward()->Some_0) == Some(v),
{
}

/// Decoding an encoded [`PairData`] gives the record back unchanged.
pub proof fn lemma_pair_data_round_trip(v: PairData)
    ensures
        v.spec_forward() is Some,
        PairData::spec_backward(v.spec_forward()->Some_0) == Some(v),
{
    let b = v.spec_forward()->Some_0;
    assert(b.subrange(0, 8) =~= u64_be_bytes(v.field_one));
    assert(b.subrange(8, 16) =~= u64_be_bytes(v.field_two));
    lemma_u64_be_bytes_round_trip(v.field_one);
    lemma_u64_be_bytes_round_trip(v.field_two);
}

} // verus!
