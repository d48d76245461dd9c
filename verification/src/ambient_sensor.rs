//! Readings of the VEML4031X00 ambient light sensor.

use crate::i2c::I2cAddress;
use vstd::prelude::*;

verus! {

/// The register of the lower byte of the reading. The register number
/// moves on by itself after each byte.
pub const REG_ALS_DATA_L: u8 = 0x10;

/// The sensor at an address of the I2C bus.
#[derive(Clone, Copy, Debug, PartialEq, Eq, Hash, PartialOrd, Ord)]
pub struct AmbientLightSensor {
    pub i2c_address: I2cAddress,
}

impl AmbientLightSensor {
    /// The reading that the two bytes read from the sensor spell, the lower
    /// byte first.
    pub fn ambient_light(&self, read_buf: &[u8; 2]) -> (reading: u16)
        ensures
            reading == read_buf@[0] + 256 * read_buf@[1],
    {
        (read_buf[0] as u16) + 256 * (read_buf[1] as u16)
    }
}

} // verus!
