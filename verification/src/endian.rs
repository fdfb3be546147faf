//! The byte orders a register can be read and written in.

use vstd::prelude::*;

verus! {

/// A byte order.
pub trait EndiannessType {
    /// Whether the byte order is little endian.
    fn little_endian() -> bool;
}

/// Least significant byte first.
pub struct LittleEndian;

impl EndiannessType for LittleEndian {
    fn little_endian() -> (res: bool)
        ensures
            res,
    {
        true
    }
}

/// Most significant byte first.
pub struct BigEndian;

impl EndiannessType for BigEndian {
    fn little_endian() -> (res: bool)
        ensures
            !res,
    {
        false
    }
}

/// The byte order of the machine the code runs on.
pub struct NativeEndian;

/// `u16::from_ne_bytes` from std: the two bytes read as a number in the byte order of
/// the machine. Which order that is depends on the machine, so nothing is stated of the
/// result.
#[verifier::external_body]
fn native_u16(bytes: [u8; 2]) -> u16 {
    u16::from_ne_bytes(bytes)
}

impl EndiannessType for NativeEndian {
    fn little_endian() -> (res: bool) {
        native_u16([1, 0]) == 1
    }
}

} // verus!
