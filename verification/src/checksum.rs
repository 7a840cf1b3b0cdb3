//! The PNG chunk checksum.
//!
//! PNG protects each chunk with a CRC-32 over the type code and payload,
//! using the ISO-HDLC (IEEE 802.3) polynomial.  The checksum detects
//! accidental corruption only; it is no security mechanism.  The computation
//! itself comes from the `crc` crate and is left opaque here: contracts only
//! rely on it being a function of the input bytes, which is enough for
//! serialization and verification to agree on every round trip.

use vstd::prelude::*;

verus! {

/// The CRC-32 (ISO-HDLC) of a byte sequence, left uninterpreted: the same
/// bytes always give the same checksum, and nothing more is assumed.
pub uninterp spec fn crc32_of(bytes: Seq<u8>) -> u32;

/// Relies on `crc::Crc::<u32>::new` and `crc::Crc::<u32>::checksum` with the
/// `CRC_32_ISO_HDLC` algorithm: the checksum is computed from the input bytes
/// and the fixed algorithm constants alone.
#[verifier::external_body]
pub fn crc32_checksum(bytes: &[u8]) -> (r: u32)
    ensures
        r == crc32_of(bytes@),
{
    crc::Crc::<u32>::new(&crc::CRC_32_ISO_HDLC).checksum(bytes)
}

} // verus!
