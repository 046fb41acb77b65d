//! CRC-32 with the IEEE polynomial, as GPT prescribes it.
use vstd::prelude::*;

verus! {

/// The CRC-32 (IEEE 802.3 polynomial, reflected, initial value and final
/// xor of `0xffff_ffff`) of a byte string.
pub uninterp spec fn crc32_ieee(bytes: Seq<u8>) -> u32;

/// Computes the checksum with `crc::crc32::checksum_ieee`.
///
/// Trusted: the result is taken to be a function of the bytes alone, which
/// is all that the contract claims of it.
#[verifier::external_body]
pub(crate) fn checksum_ieee(bytes: &[u8]) -> (sum: u32)
    ensures
        sum == crc32_ieee(bytes@),
{
    ::crc::crc32::checksum_ieee(bytes)
}

} // verus!
