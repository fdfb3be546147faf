//! A single bit value and its conversions to and from booleans and integers.

use vstd::prelude::*;

verus! {

/// A single bit
#[derive(Debug, Copy, Clone, PartialEq, Eq, Structural)]
pub enum Bit {
    /// The bit is set high
    SetHigh,
    /// The bit is set low
    Cleared,
}

impl Bit {
    /// Whether the bit is high, as a mathematical boolean.
    pub open spec fn spec_is_set(self) -> bool {
        self is SetHigh
    }

    /// Returns true if the bit is set
    pub fn is_set(&self) -> (res: bool)
        ensures
            res == self.spec_is_set(),
    {
        match self {
            Bit::SetHigh => true,
            Bit::Cleared => false,
        }
    }

    /// Returns true if the bit is not set
    pub fn is_cleared(&self) -> (res: bool)
        ensures
            res == !self.spec_is_set(),
    {
        !self.is_set()
    }

    /// The bit that stands for the given boolean.
    pub open spec fn from_bool(val: bool) -> Bit {
        if val {
            Bit::SetHigh
        } else {
            Bit::Cleared
        }
    }

    /// The numeric value of the bit: one when set, zero when cleared.
    pub open spec fn numeric(self) -> int {
        if self.spec_is_set() {
            1
        } else {
            0
        }
    }
}

impl From<bool> for Bit {
    fn from(val: bool) -> (res: Bit)
        ensures
            res == Bit::from_bool(val),
    {
        match val {
            true => Bit::SetHigh,
            false => Bit::Cleared,
        }
    }
}

impl vstd::std_specs::convert::FromSpecImpl<bool> for Bit {
    open spec fn obeys_from_spec() -> bool {
        true
    }

    open spec fn from_spec(val: bool) -> Bit {
        Bit::from_bool(val)
    }
}

impl From<Bit> for bool {
    fn from(val: Bit) -> (res: bool)
        ensures
            res == val.spec_is_set(),
    {
        val.is_set()
    }
}

impl vstd::std_specs::convert::FromSpecImpl<Bit> for bool {
    open spec fn obeys_from_spec() -> bool {
        true
    }

    open spec fn from_spec(val: Bit) -> bool {
        val.spec_is_set()
    }
}

impl From<u8> for Bit {
    fn from(val: u8) -> (res: Bit)
        ensures
            res == Bit::from_bool(val != 0),
    {
        if val != 0 {
            Bit::SetHigh
        } else {
            Bit::Cleared
        }
    }
}

impl vstd::std_specs::convert::FromSpecImpl<u8> for Bit {
    open spec fn obeys_from_spec() -> bool {
        true
    }

    open spec fn from_spec(val: u8) -> Bit {
        Bit::from_bool(val != 0)
    }
}

impl From<Bit> for u8 {
    fn from(val: Bit) -> (res: u8)
        ensures
            res == val.numeric(),
    {
        if val.is_set() {
            1
        } else {
            0
        }
    }
}

impl vstd::std_specs::convert::FromSpecImpl<Bit> for u8 {
    open spec fn obeys_from_spec() -> bool {
        true
    }

    open spec fn from_spec(val: Bit) -> u8 {
        val.numeric() as u8
    }
}

impl From<u16> for Bit {
    fn from(val: u16) -> (res: Bit)
        ensures
            res == Bit::from_bool(val != 0),
    {
        if val != 0 {
            Bit::SetHigh
        } else {
            Bit::Cleared
        }
    }
}

impl vstd::std_specs::convert::FromSpecImpl<u16> for Bit {
    open spec fn obeys_from_spec() -> bool {
        true
    }

    open spec fn from_spec(val: u16) -> Bit {
        Bit::from_bool(val != 0)
    }
}

impl From<Bit> for u16 {
    fn from(val: Bit) -> (res: u16)
        ensures
            res == val.numeric(),
    {
        if val.is_set() {
            1
        } else {
            0
        }
    }
}

impl vstd::std_specs::convert::FromSpecImpl<Bit> for u16 {
    open spec fn obeys_from_spec() -> bool {
        true
    }

    open spec fn from_spec(val: Bit) -> u16 {
        val.numeric() as u16
    }
}

impl From<u32> for Bit {
    fn from(val: u32) -> (res: Bit)
        ensures
            res == Bit::from_bool(val != 0),
    {
        if val != 0 {
            Bit::SetHigh
        } else {
            Bit::Cleared
        }
    }
}

impl vstd::std_specs::convert::FromSpecImpl<u32> for Bit {
    open spec fn obeys_from_spec() -> bool {
        true
    }

    open spec fn from_spec(val: u32) -> Bit {
        Bit::from_bool(val != 0)
    }
}

impl From<Bit> for u32 {
    fn from(val: Bit) -> (res: u32)
        ensures
            res == val.numeric(),
    {
        if val.is_set() {
            1
        } else {
            0
        }
    }
}

impl vstd::std_specs::convert::FromSpecImpl<Bit> for u32 {
    open spec fn obeys_from_spec() -> bool {
        true
    }

    open spec fn from_spec(val: Bit) -> u32 {
        val.numeric() as u32
    }
}

impl From<u64> for Bit {
    fn from(val: u64) -> (res: Bit)
        ensures
            res == Bit::from_bool(val != 0),
    {
        if val != 0 {
            Bit::SetHigh
        } else {
            Bit::Cleared
        }
    }
}

impl vstd::std_specs::convert::FromSpecImpl<u64> for Bit {
    open spec fn obeys_from_spec() -> bool {
        true
    }

    open spec fn from_spec(val: u64) -> Bit {
        Bit::from_bool(val != 0)
    }
}

impl From<Bit> for u64 {
    fn from(val: Bit) -> (res: u64)
        ensures
            res == val.numeric(),
    {
        if val.is_set() {
            1
        } else {
            0
        }
    }
}

impl vstd::std_specs::convert::FromSpecImpl<Bit> for u64 {
    open spec fn obeys_from_spec() -> bool {
        true
    }

    open spec fn from_spec(val: Bit) -> u64 {
        val.numeric() as u64
    }
}

impl From<u128> for Bit {
    fn from(val: u128) -> (res: Bit)
        ensures
            res == Bit::from_bool(val != 0),
    {
        if val != 0 {
            Bit::SetHigh
        } else {
            Bit::Cleared
        }
    }
}

impl vstd::std_specs::convert::FromSpecImpl<u128> for Bit {
    open spec fn obeys_from_spec() -> bool {
        true
    }

    open spec fn from_spec(val: u128) -> Bit {
        Bit::from_bool(val != 0)
    }
}

impl From<Bit> for u128 {
    fn from(val: Bit) -> (res: u128)
        ensures
            res == val.numeric(),
    {
        if val.is_set() {
            1
        } else {
            0
        }
    }
}

impl vstd::std_specs::convert::FromSpecImpl<Bit> for u128 {
    open spec fn obeys_from_spec() -> bool {
        true
    }

    open spec fn from_spec(val: Bit) -> u128 {
        val.numeric() as u128
    }
}

impl From<i8> for Bit {
    fn from(val: i8) -> (res: Bit)
        ensures
            res == Bit::from_bool(val != 0),
    {
        if val != 0 {
            Bit::SetHigh
        } else {
            Bit::Cleared
        }
    }
}

impl vstd::std_specs::convert::FromSpecImpl<i8> for Bit {
    open spec fn obeys_from_spec() -> bool {
        true
    }

    open spec fn from_spec(val: i8) -> Bit {
        Bit::from_bool(val != 0)
    }
}

impl From<Bit> for i8 {
    fn from(val: Bit) -> (res: i8)
        ensures
            res == val.numeric(),
    {
        if val.is_set() {
            1
        } else {
            0
        }
    }
}

impl vstd::std_specs::convert::FromSpecImpl<Bit> for i8 {
    open spec fn obeys_from_spec() -> bool {
        true
    }

    open spec fn from_spec(val: Bit) -> i8 {
        val.numeric() as i8
    }
}

impl From<i16> for Bit {
    fn from(val: i16) -> (res: Bit)
        ensures
            res == Bit::from_bool(val != 0),
    {
        if val != 0 {
            Bit::SetHigh
        } else {
            Bit::Cleared
        }
    }
}

impl vstd::std_specs::convert::FromSpecImpl<i16> for Bit {
    open spec fn obeys_from_spec() -> bool {
        true
    }

    open spec fn from_spec(val: i16) -> Bit {
        Bit::from_bool(val != 0)
    }
}

impl From<Bit> for i16 {
    fn from(val: Bit) -> (res: i16)
        ensures
            res == val.numeric(),
    {
        if val.is_set() {
            1
        } else {
            0
        }
    }
}

impl vstd::std_specs::convert::FromSpecImpl<Bit> for i16 {
    open spec fn obeys_from_spec() -> bool {
        true
    }

    open spec fn from_spec(val: Bit) -> i16 {
        val.numeric() as i16
    }
}

impl From<i32> for Bit {
    fn from(val: i32) -> (res: Bit)
        ensures
            res == Bit::from_bool(val != 0),
    {
        if val != 0 {
            Bit::SetHigh
        } else {
            Bit::Cleared
        }
    }
}

impl vstd::std_specs::convert::FromSpecImpl<i32> for Bit {
    open spec fn obeys_from_spec() -> bool {
        true
    }

    open spec fn from_spec(val: i32) -> Bit {
        Bit::from_bool(val != 0)
    }
}

impl From<Bit> for i32 {
    fn from(val: Bit) -> (res: i32)
        ensures
            res == val.numeric(),
    {
        if val.is_set() {
            1
        } else {
            0
        }
    }
}

impl vstd::std_specs::convert::FromSpecImpl<Bit> for i32 {
    open spec fn obeys_from_spec() -> bool {
        true
    }

    open spec fn from_spec(val: Bit) -> i32 {
        val.numeric() as i32
    }
}

impl From<i64> for Bit {
    fn from(val: i64) -> (res: Bit)
        ensures
            res == Bit::from_bool(val != 0),
    {
        if val != 0 {
            Bit::SetHigh
        } else {
            Bit::Cleared
        }
    }
}

impl vstd::std_specs::convert::FromSpecImpl<i64> for Bit {
    open spec fn obeys_from_spec() -> bool {
        true
    }

    open spec fn from_spec(val: i64) -> Bit {
        Bit::from_bool(val != 0)
    }
}

impl From<Bit> for i64 {
    fn from(val: Bit) -> (res: i64)
        ensures
            res == val.numeric(),
    {
        if val.is_set() {
            1
        } else {
            0
        }
    }
}

impl vstd::std_specs::convert::FromSpecImpl<Bit> for i64 {
    open spec fn obeys_from_spec() -> bool {
        true
    }

    open spec fn from_spec(val: Bit) -> i64 {
        val.numeric() as i64
    }
}

impl From<i128> for Bit {
    fn from(val: i128) -> (res: Bit)
        ensures
            res == Bit::from_bool(val != 0),
    {
        if val != 0 {
            Bit::SetHigh
        } else {
            Bit::Cleared
        }
    }
}

impl vstd::std_specs::convert::FromSpecImpl<i128> for Bit {
    open spec fn obeys_from_spec() -> bool {
        true
    }

    open spec fn from_spec(val: i128) -> Bit {
        Bit::from_bool(val != 0)
    }
}

impl From<Bit> for i128 {
    fn from(val: Bit) -> (res: i128)
        ensures
            res == val.numeric(),
    {
        if val.is_set() {
            1
        } else {
            0
        }
    }
}

impl vstd::std_specs::convert::FromSpecImpl<Bit> for i128 {
    open spec fn obeys_from_spec() -> bool {
        true
    }

    open spec fn from_spec(val: Bit) -> i128 {
        val.numeric() as i128
    }
}


/// A boolean turned into a bit and back is the same boolean; a bit turned into a
/// boolean or into an integer, and back into a bit, is the same bit; and a bit is
/// cleared exactly when it is not set.
pub proof fn lemma_bit_round_trips(b: bool, bit: Bit)
    ensures
        Bit::from_bool(b).spec_is_set() == b,
        Bit::from_bool(bit.spec_is_set()) == bit,
        Bit::from_bool(bit.numeric() != 0) == bit,
        bit.numeric() == 0 || bit.numeric() == 1,
{
}

} // verus!
