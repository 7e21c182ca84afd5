//! Big-endian encoding of a `u64` as eight bytes, used by the
//! length-framed stable-memory layout.

use vstd::prelude::*;

verus! {

/// The eight big-endian bytes of `n`, most significant first.
pub open spec fn u64_be_bytes(n: u64) -> Seq<u8> {
    seq![
        (n >> 56) as u8,
        (n >> 48) as u8,
        (n >> 40) as u8,
        (n >> 32) as u8,
        (n >> 24) as u8,
        (n >> 16) as u8,
        (n >> 8) as u8,
        n as u8,
    ]
}

/// The `u64` read big-endian from an eight-byte sequence.
pub open spec fn u64_from_be_bytes(s: Seq<u8>) -> u64
    recommends
        s.len() == 8,
{
    (((s[0] as u64) << 56) | ((s[1] as u64) << 48) | ((s[2] as u64) << 40)
        | ((s[3] as u64) << 32) | ((s[4] as u64) << 24) | ((s[5] as u64) << 16)
        | ((s[6] as u64) << 8) | (s[7] as u64)) as u64
}

/// Decoding the big-endian bytes of `n` gives `n` back.
pub proof fn lemma_u64_be_bytes_round_trip(n: u64)
    ensures
        u64_from_be_bytes(u64_be_bytes(n)) == n,
{
    assert((((((n >> 56) as u8) as u64) << 56) | ((((n >> 48) as u8) as u64) << 48)
        | ((((n >> 40) as u8) as u64) << 40) | ((((n >> 32) as u8) as u64) << 32)
        | ((((n >> 24) as u8) as u64) << 24) | ((((n >> 16) as u8) as u64) << 16)
        | ((((n >> 8) as u8) as u64) << 8) | ((n as u8) as u64)) == n) by (bit_vector);
}

/// Writes `n` as eight big-endian bytes.
pub fn u64_to_be_byte_vec(n: u64) -> (r: Vec<u8>)
    ensures
        r@ == u64_be_bytes(n),
{
    let mut r: Vec<u8> = Vec::new();
    r.push((n >> 56) as u8);
    r.push((n >> 48) as u8);
    r.push((n >> 40) as u8);
    r.push((n >> 32) as u8);
    r.push((n >> 24) as u8);
    r.push((n >> 16) as u8);
    r.push((n >> 8) as u8);
    r.push(n as u8);
    proof {
        assert(r@ =~= u64_be_bytes(n));
    }
    r
}

/// Reads the `u64` stored big-endian at `b[start .. start + 8]`.
pub fn u64_from_be_byte_slice(b: &[u8], start: usize) -> (r: u64)
    requires
        start + 8 <= b@.len(),
    ensures
        r == u64_from_be_bytes(b@.subrange(start as int, start as int + 8)),
{
    let len: usize = b.len();
    assert(start + 8 <= len);
    let r: u64 = (((b[start] as u64) << 56) | ((b[start + 1] as u64) << 48)
        | ((b[start + 2] as u64) << 40) | ((b[start + 3] as u64) << 32)
        | ((b[start + 4] as u64) << 24) | ((b[start + 5] as u64) << 16)
        | ((b[start + 6] as u64) << 8) | (b[start + 7] as u64)) as u64;
    proof {
        let s = b@.subrange(start as int, start as int + 8);
        assert(s[0] == b@[start as int]);
        assert(s[1] == b@[start as int + 1]);
        assert(s[2] == b@[start as int + 2]);
        assert(s[3] == b@[start as int + 3]);
        assert(s[4] == b@[start as int + 4]);
        assert(s[5] == b@[start as int + 5]);
        assert(s[6] == b@[start as int + 6]);
        assert(s[7] == b@[start as int + 7]);
    }
    r
}

} // verus!
