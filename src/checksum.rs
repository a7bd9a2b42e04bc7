//! The one-byte checksum of a tagged value: CRC-8 over the tag's bytes
//! followed by the payload's bytes.

use vstd::prelude::*;

verus! {

/// CRC-8 of a byte sequence with polynomial 0x07, initial register 0, no
/// reflection and no final xor (the parameters of `crc_any::CRC::crc8`).
pub uninterp spec fn crc8(data: Seq<u8>) -> u8;

/// Relies on `crc_any::CRC::crc8`, `CRC::digest` and `CRC::get_crc`: one
/// running CRC-8 register is fed `first` and then `second`, which gives the
/// CRC-8 of their concatenation; `get_crc` holds it in its low eight bits.
#[verifier::external_body]
pub(crate) fn crc8_of_parts(first: &[u8], second: &[u8]) -> (r: u8)
    ensures
        r == crc8(first@ + second@),
{
    let mut crc = crc_any::CRC::crc8();
    crc.digest(first);
    crc.digest(second);
    crc.get_crc() as u8
}

} // verus!
