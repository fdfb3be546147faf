//! The low-level interface of a device: reading and writing its registers.

use vstd::prelude::*;

verus! {

/// Error type for type conversion errors
#[derive(Debug, Clone, Copy, PartialEq, Eq)]
pub struct ConversionError;

/// Trait for reading and writing registers
pub trait RegisterInterface {
    /// The type representation of the address
    type Address;

    /// The type representation of the errors the interface can give
    type InterfaceError;

    /// Reads the register at the given address and puts the data in the value parameter
    fn read_register(&mut self, address: Self::Address, value: &mut [u8]) -> Result<
        (),
        Self::InterfaceError,
    >;

    /// Writes the value to the register at the given address
    fn write_register(&mut self, address: Self::Address, value: &[u8]) -> Result<
        (),
        Self::InterfaceError,
    >;
}

/// General Device trait
pub trait LowLevelDevice<I> {
    /// Create a new instance of the device with the given interface
    fn new(interface: I) -> Self where Self: Sized;

    /// Destruct the device and give back the interface
    fn free(self) -> I;
}

} // verus!
