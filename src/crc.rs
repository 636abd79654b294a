//! CRC-16/CCITT-FALSE and ISO-3309 CRC-32 checksums.
use vstd::prelude::*;

verus! {

/// The CRC-16/CCITT-FALSE checksum (polynomial 0x1021, init 0xFFFF, no reflection,
/// no final XOR) of a byte sequence.
pub uninterp spec fn crc16_of(data: Seq<u8>) -> u16;

/// The ISO-3309 CRC-32 checksum (reflected polynomial 0xEDB88320) of a byte sequence.
pub uninterp spec fn crc32_of(data: Seq<u8>) -> u32;

/// Relies on crc_any::CRC::crc16ccitt_false, digest and get_crc: the CRC-16/CCITT-FALSE
/// of the bytes, which depends on the bytes alone and fits in 16 bits.
#[verifier::external_body]
pub fn calc_crc16(data: &[u8]) -> (r: u16)
    ensures
        r == crc16_of(data@),
{
    let mut crc = crc_any::CRC::crc16ccitt_false();
    crc.digest(data);
    crc.get_crc() as u16
}

/// Relies on crc_any::CRC::crc32, digest and get_crc: the ISO-3309 CRC-32 of the bytes,
/// which depends on the bytes alone and fits in 32 bits.
#[verifier::external_body]
pub fn calc_crc32(data: &[u8]) -> (r: u32)
    ensures
        r == crc32_of(data@),
{
    let mut crc = crc_any::CRC::crc32();
    crc.digest(data);
    crc.get_crc() as u32
}

} // verus!
