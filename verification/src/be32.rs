//! Big-endian encoding and decoding of unsigned 32-bit values, the integer
//! form used by the wire layout's length and checksum fields.

use vstd::prelude::*;

verus! {

/// The four big-endian bytes of `n`, most significant first.
pub open spec fn spec_be32_encode(n: u32) -> Seq<u8> {
    seq![(n >> 24) as u8, (n >> 16) as u8, (n >> 8) as u8, n as u8]
}

/// The value of four bytes read as a big-endian unsigned 32-bit integer.
pub open spec fn spec_be32_decode(s: Seq<u8>) -> u32
    recommends
        s.len() == 4,
{
    ((s[0] as u32) << 24) | ((s[1] as u32) << 16) | ((s[2] as u32) << 8) | (s[3] as u32)
}

/// Decoding the encoding of a value gives the value back.
pub proof fn lemma_be32_decode_encode(n: u32)
    ensures
        spec_be32_decode(spec_be32_encode(n)) == n,
{
    assert((((n >> 24) as u8 as u32) << 24) | (((n >> 16) as u8 as u32) << 16) | (((n >> 8) as u8
        as u32) << 8) | (n as u8 as u32) == n) by (bit_vector);
}

/// Encoding the decoding of four bytes gives the bytes back; together with
/// [`lemma_be32_decode_encode`] this makes the encoding a bijection between
/// `u32` and 4-byte sequences.
pub proof fn lemma_be32_encode_decode(s: Seq<u8>)
    requires
        s.len() == 4,
    ensures
        spec_be32_encode(spec_be32_decode(s)) == s,
{
    let b0 = s[0];
    let b1 = s[1];
    let b2 = s[2];
    let b3 = s[3];
    assert(((((b0 as u32) << 24) | ((b1 as u32) << 16) | ((b2 as u32) << 8) | (b3 as u32)) >> 24)
        as u8 == b0) by (bit_vector);
    assert(((((b0 as u32) << 24) | ((b1 as u32) << 16) | ((b2 as u32) << 8) | (b3 as u32)) >> 16)
        as u8 == b1) by (bit_vector);
    assert(((((b0 as u32) << 24) | ((b1 as u32) << 16) | ((b2 as u32) << 8) | (b3 as u32)) >> 8)
        as u8 == b2) by (bit_vector);
    assert((((b0 as u32) << 24) | ((b1 as u32) << 16) | ((b2 as u32) << 8) | (b3 as u32)) as u8
        == b3) by (bit_vector);
    assert(spec_be32_encode(spec_be32_decode(s)) =~= s);
}

/// Two different 4-byte sequences decode to two different values.
pub proof fn lemma_be32_decode_injective(s: Seq<u8>, t: Seq<u8>)
    requires
        s.len() == 4,
        t.len() == 4,
        s != t,
    ensures
        spec_be32_decode(s) != spec_be32_decode(t),
{
    lemma_be32_encode_decode(s);
    lemma_be32_encode_decode(t);
}

/// Reads the big-endian `u32` stored at `offset` in `bytes`.
pub fn read_be32(bytes: &[u8], offset: usize) -> (n: u32)
    requires
        offset + 4 <= bytes@.len(),
    ensures
        n == spec_be32_decode(bytes@.subrange(offset as int, offset as int + 4)),
{
    let n = ((bytes[offset] as u32) << 24) | ((bytes[offset + 1] as u32) << 16) | ((bytes[offset
        + 2] as u32) << 8) | (bytes[offset + 3] as u32);
    proof {
        let s = bytes@.subrange(offset as int, offset as int + 4);
        assert(s[0] == bytes@[offset as int]);
        assert(s[1] == bytes@[offset as int + 1]);
        assert(s[2] == bytes@[offset as int + 2]);
        assert(s[3] == bytes@[offset as int + 3]);
    }
    n
}

/// Appends the big-endian encoding of `n` to `out`.
pub fn push_be32(out: &mut Vec<u8>, n: u32)
    ensures
        final(out)@ == old(out)@ + spec_be32_encode(n),
{
    out.push(#[verifier::truncate] ((n >> 24) as u8));
    out.push(#[verifier::truncate] ((n >> 16) as u8));
    out.push(#[verifier::truncate] ((n >> 8) as u8));
    out.push(#[verifier::truncate] (n as u8));
    assert(out@ =~= old(out)@ + spec_be32_encode(n));
}

} // verus!
