//! Addresses and command frames of the AT25FF321A flash chip.

use vstd::prelude::*;

verus! {

/// The largest address of 24 bits.
pub const ADDRESS_MAX: u32 = 0x00FF_FFFF;

/// The command that allows the next write or erase.
pub const CMD_WRITE_ENABLE: u8 = 0x06;

/// The command that reads the first status register.
pub const CMD_READ_STATUS_REGISTER_1: u8 = 0x05;

/// The command that reads the second status register.
pub const CMD_READ_STATUS_REGISTER_2: u8 = 0x35;

/// The command that reads the third status register.
pub const CMD_READ_STATUS_REGISTER_3: u8 = 0x15;

/// The command that reads any status register, by its number.
pub const CMD_READ_STATUS_REGISTERS: u8 = 0x65;

/// The command that erases a block of 4 KiB.
pub const CMD_ERASE_4K: u8 = 0x20;

/// The command that erases a block of 32 KiB.
pub const CMD_ERASE_32K: u8 = 0x52;

/// The command that erases a block of 64 KiB.
pub const CMD_ERASE_64K: u8 = 0xD8;

/// The command that programs bytes.
pub const CMD_PROGRAM: u8 = 0x02;

/// The command that reads bytes after one dummy byte.
pub const CMD_READ_PIPELINED: u8 = 0x0B;

/// A 24-bit flash memory address.
#[derive(Clone, Copy, Debug, Default, PartialEq, Eq, Hash, PartialOrd, Ord)]
pub struct Address {
    inner: u32,
}

impl View for Address {
    type V = u32;

    closed spec fn view(&self) -> u32 {
        self.inner
    }
}

impl Address {
    /// The representation invariant: the address fits into 24 bits. Every
    /// address that executable code holds satisfies it.
    #[verifier::type_invariant]
    pub closed spec fn wf(&self) -> bool {
        self.inner <= ADDRESS_MAX
    }

    /// The address `value`, where it fits into 24 bits.
    pub fn new(value: u32) -> (address: Option<Self>)
        ensures
            address is Some <==> value <= ADDRESS_MAX,
            address matches Some(a) ==> a.wf() && a@ == value,
    {
        if value <= 0x00FF_FFFF {
            Some(Self { inner: value })
        } else {
            None
        }
    }

    /// The address as a number.
    pub fn as_u32(&self) -> (value: u32)
        ensures
            value == self@,
            value <= ADDRESS_MAX,
    {
        proof {
            use_type_invariant(self);
        }
        self.inner
    }
}

impl Address {
    /// The value that holds `inner`.
    pub closed spec fn spec_new(inner: u32) -> Address {
        Address { inner }
    }

    /// The value made from a number holds that number.
    pub proof fn lemma_spec_new(inner: u32)
        ensures
            Self::spec_new(inner)@ == inner,
            inner <= ADDRESS_MAX ==> Self::spec_new(inner).wf(),
    {
    }
}

impl TryFrom<u32> for Address {
    type Error = ();

    fn try_from(value: u32) -> (result: Result<Self, Self::Error>) {
        match Self::new(value) {
            Some(converted) => Ok(converted),
            None => Err(()),
        }
    }
}

impl vstd::std_specs::convert::TryFromSpecImpl<u32> for Address {
    open spec fn obeys_try_from_spec() -> bool {
        true
    }

    open spec fn try_from_spec(value: u32) -> Result<Self, Self::Error> {
        if value <= ADDRESS_MAX {
            Ok(Address::spec_new(value))
        } else {
            Err(())
        }
    }
}

impl From<Address> for u32 {
    fn from(value: Address) -> (number: u32) {
        value.as_u32()
    }
}

impl vstd::std_specs::convert::FromSpecImpl<Address> for u32 {
    open spec fn obeys_from_spec() -> bool {
        true
    }

    open spec fn from_spec(value: Address) -> u32 {
        value@
    }
}

/// The three bytes of an address as the chip takes them, most significant
/// byte first.
pub open spec fn address_bytes(address: u32) -> Seq<u8> {
    seq![
        ((address / 0x1_0000) % 0x100) as u8,
        ((address / 0x100) % 0x100) as u8,
        (address % 0x100) as u8,
    ]
}

/// The frame of a command that takes an address: the opcode, then the
/// address. This is the frame of the erase commands and of the program
/// command, which the bytes to program follow.
pub fn command_with_address(opcode: u8, address: Address) -> (frame: [u8; 4])
    ensures
        frame@ == seq![opcode] + address_bytes(address@),
{
    let value: u32 = address.as_u32();
    let high: u32 = (value >> 16) & 0xFF;
    let middle: u32 = (value >> 8) & 0xFF;
    let low: u32 = value & 0xFF;
    assert(high == (value / 0x1_0000) % 0x100 && middle == (value / 0x100) % 0x100 && low == value
        % 0x100) by (bit_vector)
        requires
            high == (value >> 16) & 0xFF,
            middle == (value >> 8) & 0xFF,
            low == value & 0xFF,
    ;
    let frame: [u8; 4] = [opcode, high as u8, middle as u8, low as u8];
    assert(frame@ =~= seq![opcode] + address_bytes(address@));
    frame
}

/// The frame that starts a read: the opcode, the address, and the dummy
/// byte that the chip needs before it answers.
pub fn read_command(address: Address) -> (frame: [u8; 5])
    ensures
        frame@ == seq![CMD_READ_PIPELINED] + address_bytes(address@) + seq![0u8],
{
    let start = command_with_address(CMD_READ_PIPELINED, address);
    let frame: [u8; 5] = [start[0], start[1], start[2], start[3], 0x00];
    assert(frame@ =~= seq![CMD_READ_PIPELINED] + address_bytes(address@) + seq![0u8]);
    frame
}

/// Whether the first status register says that the chip is busy: its
/// lowest bit is set.
pub fn status_is_busy(status_register_1: u8) -> (busy: bool)
    ensures
        busy <==> status_register_1 % 2 == 1,
{
    assert((status_register_1 & 0x01) != 0 <==> status_register_1 % 2 == 1) by (bit_vector);
    (status_register_1 & 0x01) != 0
}

} // verus!
