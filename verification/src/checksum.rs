//! The CRC-32 that guards a chunk, computed by the `crc` crate.

use vstd::prelude::*;

verus! {

/// The CRC-32/ISO-HDLC checksum of `bytes`, as the `crc` crate computes it.
pub uninterp spec fn crc32(bytes: Seq<u8>) -> u32;

/// Calls `crc::Crc::<u32>::checksum` on an instance made for
/// `crc::CRC_32_ISO_HDLC`.
///
/// Assumed, not proved: the call returns for every input, and what it
/// returns depends on the bytes alone. Nothing is assumed of its value.
#[verifier::external_body]
pub(crate) fn checksum(bytes: &[u8]) -> (sum: u32)
    ensures
        sum == crc32(bytes@),
{
    crc::Crc::<u32>::new(&crc::CRC_32_ISO_HDLC).checksum(bytes)
}

} // verus!
