//! Addresses on the I2C bus.

use vstd::prelude::*;

verus! {

/// The largest seven-bit address.
pub const I2C_ADDRESS_MAX: u8 = 0x7F;

/// A seven-bit I2C address.
#[derive(Clone, Copy, Debug, Default, PartialEq, Eq, Hash, PartialOrd, Ord)]
pub struct I2cAddress(u8);

impl View for I2cAddress {
    type V = u8;

    closed spec fn view(&self) -> u8 {
        self.0
    }
}

impl I2cAddress {
    /// The representation invariant: the address fits into seven bits.
    /// Every address that executable code holds satisfies it.
    #[verifier::type_invariant]
    pub closed spec fn wf(&self) -> bool {
        self.0 <= I2C_ADDRESS_MAX
    }

    /// The address `address`, where it fits into seven bits.
    pub fn new(address: u8) -> (result: Option<Self>)
        ensures
            result is Some <==> address <= I2C_ADDRESS_MAX,
            result matches Some(a) ==> a.wf() && a@ == address,
    {
        assert(address & 0b1000_0000 != 0 <==> address > 0x7F) by (bit_vector);
        if address & 0b1000_0000 != 0 {
            None
        } else {
            Some(Self(address))
        }
    }

    /// The address as a number.
    pub fn as_u8(&self) -> (address: u8)
        ensures
            address == self@,
            address <= I2C_ADDRESS_MAX,
    {
        proof {
            use_type_invariant(self);
        }
        self.0
    }

    /// The byte that opens a transfer with this address: the address in
    /// the upper seven bits, above the bit that tells reading from writing.
    pub fn shifted(&self) -> (byte: u8)
        ensures
            byte == self@ * 2,
    {
        proof {
            use_type_invariant(self);
        }
        self.0 * 2
    }
}

} // verus!
