//! Little-endian encoding of the signed 32-bit fields that frame every
//! packet on the wire: `size`, `id` and `type` each travel as four bytes.

use vstd::prelude::*;
use vstd::bytes::{spec_u32_from_le_bytes, spec_u32_to_le_bytes, u32_from_le_bytes,
    u32_to_le_bytes, lemma_auto_spec_u32_to_from_le_bytes};

verus! {

/// The four little-endian bytes of a signed 32-bit value.
pub open spec fn spec_i32_to_le(x: i32) -> Seq<u8> {
    spec_u32_to_le_bytes(x as u32)
}

/// The signed 32-bit value read from four little-endian bytes.
pub open spec fn spec_i32_from_le(s: Seq<u8>) -> i32
    recommends
        s.len() == 4,
{
    spec_u32_from_le_bytes(s) as i32
}

/// A signed value survives the round trip through its four wire bytes,
/// and four bytes survive the round trip through the value they encode.
pub proof fn lemma_i32_le_round_trip()
    ensures
        forall|x: i32| #[trigger] spec_i32_to_le(x).len() == 4,
        forall|x: i32| spec_i32_from_le(#[trigger] spec_i32_to_le(x)) == x,
        forall|s: Seq<u8>|
            s.len() == 4 ==> spec_i32_to_le(#[trigger] spec_i32_from_le(s)) == s,
{
    lemma_auto_spec_u32_to_from_le_bytes();
    assert forall|x: i32| spec_i32_from_le(#[trigger] spec_i32_to_le(x)) == x by {
        let u = #[verifier::truncate] (x as u32);
        assert(spec_u32_to_le_bytes(u).len() == 4);
        assert(spec_u32_from_le_bytes(spec_u32_to_le_bytes(u)) == u);
        assert((x as u32) as i32 == x) by (bit_vector);
    }
    assert forall|s: Seq<u8>| s.len() == 4
        implies spec_i32_to_le(#[trigger] spec_i32_from_le(s)) == s by {
        let u = spec_u32_from_le_bytes(s);
        assert((u as i32) as u32 == u) by (bit_vector);
        assert(spec_u32_to_le_bytes(spec_u32_from_le_bytes(s)) == s);
    }
}

/// Appends the four little-endian bytes of `x` to `out`.
pub fn push_i32_le(out: &mut Vec<u8>, x: i32)
    ensures
        final(out)@ == old(out)@ + spec_i32_to_le(x),
{
    let bytes = u32_to_le_bytes(#[verifier::truncate] (x as u32));
    let mut i: usize = 0;
    while i < bytes.len()
        invariant
            bytes@ == spec_i32_to_le(x),
            bytes@.len() == 4,
            i <= 4,
            out@ == old(out)@ + bytes@.subrange(0, i as int),
        decreases bytes@.len() - i,
    {
        out.push(bytes[i]);
        i += 1;
        proof {
            assert(out@ =~= old(out)@ + bytes@.subrange(0, i as int));
        }
    }
    proof {
        assert(out@ =~= old(out)@ + bytes@);
    }
}

/// Reads the signed 32-bit value that four little-endian bytes carry.
pub fn i32_from_le(bytes: &[u8]) -> (x: i32)
    requires
        bytes@.len() == 4,
    ensures
        x == spec_i32_from_le(bytes@),
{
    let u = u32_from_le_bytes(bytes);
    #[verifier::truncate] (u as i32)
}

} // verus!
