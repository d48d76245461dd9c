//! Frames for the AS1115 LED driver and button scanner of the control
//! panel.

use crate::i2c::I2cAddress;
use vstd::prelude::*;

verus! {

/// The register of the first LED row. The register number moves on by
/// itself after each byte.
pub const REG_LED_ROW_0: u8 = 0x01;

/// The register that limits the rows that are scanned.
pub const REG_SCAN_LIMIT: u8 = 0x0B;

/// The register that shuts the chip down or wakes it.
pub const REG_SHUTDOWN: u8 = 0x0C;

/// The register of the first eight buttons. The register number moves on
/// by itself after each byte.
pub const REG_KEY_A: u8 = 0x1C;

/// The number of LED rows.
pub const LED_ROWS: usize = 8;

/// The control panel at an address of the I2C bus.
#[derive(Clone, Copy, Debug, PartialEq, Eq, Hash, PartialOrd, Ord)]
pub struct HmiDisplay {
    pub i2c_address: I2cAddress,
}

impl HmiDisplay {
    /// The frame that writes `data` to the LED rows, the first row first:
    /// the register of the first row, then the rows. There are eight rows.
    pub fn display_frame(&self, data: &[u8]) -> (frame: Vec<u8>)
        requires
            data@.len() <= LED_ROWS,
        ensures
            frame@ == seq![REG_LED_ROW_0] + data@,
    {
        let mut frame: Vec<u8> = Vec::new();
        frame.push(REG_LED_ROW_0);
        let mut index: usize = 0;
        while index < data.len()
            invariant
                index <= data@.len(),
                frame@ == seq![REG_LED_ROW_0] + data@.take(index as int),
            decreases data@.len() - index,
        {
            frame.push(data[index]);
            index = index + 1;
            assert(frame@ =~= seq![REG_LED_ROW_0] + data@.take(index as int));
        }
        assert(data@.take(index as int) =~= data@);
        frame
    }
}

} // verus!
