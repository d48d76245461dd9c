//! Receive path of a dual-temperature display node: the interrupt-fed byte
//! queue, the EnOcean Serial Protocol 3 framing engine that reads from it,
//! and the display logic that reacts to decoded telegrams.

pub mod crc8;
pub mod ring_buffer;
pub mod enocean;
pub mod temp_display;
pub mod telegram;
pub mod spi;
pub mod i2c;
pub mod flash;
pub mod clock;
pub mod setup;
pub mod uart;
pub mod hmi_display;
pub mod ambient_sensor;
