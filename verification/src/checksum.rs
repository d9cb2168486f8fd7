//! The CRC-32 checksum that guards every chunk.

use crc::{Crc, CRC_32_ISO_HDLC};
use vstd::prelude::*;

verus! {

/// The CRC-32/ISO-HDLC checksum of a byte sequence (the CRC-32 of PNG, zlib and
/// Ethernet).
pub uninterp spec fn crc32_iso_hdlc(bytes: Seq<u8>) -> u32;

/// `crc::Crc::<u32>::checksum` with the algorithm `crc::CRC_32_ISO_HDLC`.
///
/// Trusted: the result is a function of the bytes alone, the one that this module
/// names [`crc32_iso_hdlc`]. Nothing is claimed about its value on any input.
#[verifier::external_body]
pub(crate) fn checksum(bytes: &[u8]) -> (sum: u32)
    ensures
        sum == crc32_iso_hdlc(bytes@),
{
    Crc::<u32>::new(&CRC_32_ISO_HDLC).checksum(bytes)
}

} // verus!
