//! The chunk integrity checksum.
use vstd::prelude::*;

verus! {

/// The CRC-32/ISO-HDLC checksum of a byte sequence. The algorithm is
/// fixed, so the result is a function of the bytes alone; its value on
/// given bytes is left unstated and comes only out of [`crc32_checksum`].
pub uninterp spec fn crc32_of(bytes: Seq<u8>) -> u32;

/// Relies on crc::Crc::checksum with the CRC_32_ISO_HDLC algorithm: a
/// table-driven digest folded over the bytes in order, a pure function
/// of its input.
#[verifier::external_body]
pub(crate) fn crc32_checksum(bytes: &[u8]) -> (r: u32)
    ensures
        r == crc32_of(bytes@),
{
    crc::Crc::<u32>::new(&crc::CRC_32_ISO_HDLC).checksum(bytes)
}

} // verus!
