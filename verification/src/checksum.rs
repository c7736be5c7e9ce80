//! The frame checksum, CRC-16/KERMIT, computed by the `crc` crate.
use vstd::prelude::*;

verus! {

/// CRC-16/KERMIT (polynomial 0x1021, reflected in and out, initial value and
/// final xor zero) of a byte string.
pub uninterp spec fn crc16_kermit(data: Seq<u8>) -> u16;

/// Calls `crc::Crc::<u16>::checksum` on a `Crc` made from the catalogue entry
/// `CRC_16_KERMIT`. The call reads nothing but `bytes` and cannot fail; the
/// contract only gives its result the name `crc16_kermit`, nothing is claimed
/// of the value.
#[verifier::external_body]
fn kermit(bytes: &[u8]) -> (sum: u16)
    ensures
        sum == crc16_kermit(bytes@),
{
    crc::Crc::<u16>::new(&crc::CRC_16_KERMIT).checksum(bytes)
}

/// The checksum that a frame carries for `bytes`, its header and payload.
pub fn checksum(bytes: &[u8]) -> (sum: u16)
    ensures
        sum == crc16_kermit(bytes@),
{
    kermit(bytes)
}

} // verus!
