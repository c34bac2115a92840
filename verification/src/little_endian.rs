//! Little-endian integers in byte slices.
use byteorder::{ByteOrder, LittleEndian};
use vstd::prelude::*;

verus! {

/// The number that two bytes hold, the least significant one first.
pub open spec fn le_u16(bytes: Seq<u8>) -> int {
    bytes[0] + 0x100 * bytes[1]
}

/// The number that four bytes hold, the least significant one first.
pub open spec fn le_u32(bytes: Seq<u8>) -> int {
    bytes[0] + 0x100 * bytes[1] + 0x1_0000 * bytes[2] + 0x100_0000 * bytes[3]
}

/// `LittleEndian::read_u16` of the `byteorder` crate, which panics on a slice
/// of fewer than two bytes. It is taken on trust that the result is the number
/// that the first two bytes hold in little-endian order.
#[verifier::external_body]
pub(crate) fn read_u16(bytes: &[u8]) -> (value: u16)
    requires
        bytes@.len() >= 2,
    ensures
        value == le_u16(bytes@),
{
    LittleEndian::read_u16(bytes)
}

/// `LittleEndian::read_u32` of the `byteorder` crate, which panics on a slice
/// of fewer than four bytes. It is taken on trust that the result is the
/// number that the first four bytes hold in little-endian order.
#[verifier::external_body]
pub(crate) fn read_u32(bytes: &[u8]) -> (value: u32)
    requires
        bytes@.len() >= 4,
    ensures
        value == le_u32(bytes@),
{
    LittleEndian::read_u32(bytes)
}

} // verus!
