//! Big-endian encoding of `u32` values.
//!
//! The PNG wire format stores every chunk's length and CRC as four
//! network-order bytes.  These are the only multi-byte integers in the
//! format, so a pair of `u32` conversions is all the crate needs.

use vstd::prelude::*;

verus! {

/// The four big-endian bytes of `x`, most significant first.
pub open spec fn spec_u32_to_be_bytes(x: u32) -> Seq<u8> {
    seq![
        ((x >> 24) & 0xff) as u8,
        ((x >> 16) & 0xff) as u8,
        ((x >> 8) & 0xff) as u8,
        (x & 0xff) as u8,
    ]
}

/// The `u32` denoted by four big-endian bytes.
pub open spec fn spec_u32_from_be_bytes(s: Seq<u8>) -> u32
    recommends
        s.len() == 4,
{
    ((s[0] as u32) << 24) | ((s[1] as u32) << 16) | ((s[2] as u32) << 8) | (s[3] as u32)
}

/// The two conversions invert each other.
pub proof fn lemma_u32_be_bytes_roundtrip()
    ensures
        forall|x: u32|
            {
                &&& (#[trigger] spec_u32_to_be_bytes(x)).len() == 4
                &&& spec_u32_from_be_bytes(spec_u32_to_be_bytes(x)) == x
            },
        forall|s: Seq<u8>|
            s.len() == 4 ==> #[trigger] spec_u32_to_be_bytes(spec_u32_from_be_bytes(s)) == s,
{
    assert forall|x: u32|
        {
            &&& (#[trigger] spec_u32_to_be_bytes(x)).len() == 4
            &&& spec_u32_from_be_bytes(spec_u32_to_be_bytes(x)) == x
        } by {
        assert({
            &&& (x >> 24) & 0xff < 256
            &&& (x >> 16) & 0xff < 256
            &&& (x >> 8) & 0xff < 256
            &&& x & 0xff < 256
        }) by (bit_vector);
        assert(x == ((((x >> 24) & 0xff) << 24) | (((x >> 16) & 0xff) << 16) | (((x >> 8)
            & 0xff) << 8) | (x & 0xff))) by (bit_vector);
    }
    assert forall|s: Seq<u8>| s.len() == 4 implies #[trigger] spec_u32_to_be_bytes(
        spec_u32_from_be_bytes(s),
    ) == s by {
        let x = spec_u32_from_be_bytes(s);
        let s0 = s[0] as u32;
        let s1 = s[1] as u32;
        let s2 = s[2] as u32;
        let s3 = s[3] as u32;
        assert(((x == (s0 << 24) | (s1 << 16) | (s2 << 8) | s3) && s0 < 256 && s1 < 256 && s2
            < 256 && s3 < 256) ==> (s0 == (x >> 24) & 0xff && s1 == (x >> 16) & 0xff && s2 == (x
            >> 8) & 0xff && s3 == x & 0xff)) by (bit_vector);
        assert(spec_u32_to_be_bytes(spec_u32_from_be_bytes(s)) =~= s);
    }
}

/// Appends the four big-endian bytes of `x` to `out`.
pub fn push_u32_be(out: &mut Vec<u8>, x: u32)
    ensures
        final(out)@ == old(out)@ + spec_u32_to_be_bytes(x),
{
    proof {
        assert({
            &&& (x >> 24) & 0xff < 256
            &&& (x >> 16) & 0xff < 256
            &&& (x >> 8) & 0xff < 256
            &&& x & 0xff < 256
        }) by (bit_vector);
    }
    out.push(((x >> 24) & 0xff) as u8);
    out.push(((x >> 16) & 0xff) as u8);
    out.push(((x >> 8) & 0xff) as u8);
    out.push((x & 0xff) as u8);
    proof {
        assert(final(out)@ =~= old(out)@ + spec_u32_to_be_bytes(x));
    }
}

/// Reads the big-endian `u32` stored at `offset` in `bytes`.
pub fn read_u32_be(bytes: &[u8], offset: usize) -> (x: u32)
    requires
        offset + 4 <= bytes@.len(),
    ensures
        x == spec_u32_from_be_bytes(bytes@.subrange(offset as int, offset as int + 4)),
{
    let b0 = bytes[offset] as u32;
    let b1 = bytes[offset + 1] as u32;
    let b2 = bytes[offset + 2] as u32;
    let b3 = bytes[offset + 3] as u32;
    proof {
        assert((b0 << 24) <= 0xff00_0000 && (b1 << 16) <= 0xff_0000 && (b2 << 8) <= 0xff00)
            by (bit_vector)
            requires
                b0 < 256 && b1 < 256 && b2 < 256,
        ;
    }
    (b0 << 24) | (b1 << 16) | (b2 << 8) | b3
}

} // verus!
