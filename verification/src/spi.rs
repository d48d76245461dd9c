//! The four clock modes of an SPI bus.

use vstd::prelude::*;

verus! {

/// When data is written to the bus and when it is read, relative to the
/// clock and the chip select.
#[derive(Clone, Copy, Debug, PartialEq, Eq, Hash, PartialOrd, Ord)]
pub enum SpiMode {
    /// Mode 0: written on the falling clock edge or with chip select, read
    /// on the rising edge.
    WriteFallingOrCsReadRising,
    /// Mode 1: written on the rising clock edge, read on the falling edge.
    WriteRisingReadFalling,
    /// Mode 2: written on the rising clock edge or with chip select, read
    /// on the falling edge.
    WriteRisingOrCsReadFalling,
    /// Mode 3: written on the falling clock edge, read on the rising edge.
    WriteFallingReadRising,
}

impl SpiMode {
    /// The number of the mode, 0 to 3.
    pub open spec fn number(self) -> int {
        match self {
            SpiMode::WriteFallingOrCsReadRising => 0,
            SpiMode::WriteRisingReadFalling => 1,
            SpiMode::WriteRisingOrCsReadFalling => 2,
            SpiMode::WriteFallingReadRising => 3,
        }
    }

    /// The clock polarity of this mode: the upper bit of its number.
    pub fn cpol(&self) -> (polarity: bool)
        ensures
            polarity <==> self.number() / 2 == 1,
    {
        match self {
            Self::WriteFallingOrCsReadRising => false,
            Self::WriteRisingReadFalling => false,
            Self::WriteRisingOrCsReadFalling => true,
            Self::WriteFallingReadRising => true,
        }
    }

    /// The clock phase of this mode: the lower bit of its number.
    pub fn cpha(&self) -> (phase: bool)
        ensures
            phase <==> self.number() % 2 == 1,
    {
        match self {
            Self::WriteFallingOrCsReadRising => false,
            Self::WriteRisingReadFalling => true,
            Self::WriteRisingOrCsReadFalling => false,
            Self::WriteFallingReadRising => true,
        }
    }
}

} // verus!
