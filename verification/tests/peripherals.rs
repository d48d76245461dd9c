use temp_pair_enocean::ambient_sensor::AmbientLightSensor;
use temp_pair_enocean::clock::{divide_u32_to_u16_round, systick_reload_value, CLOCK_SPEED_HZ};
use temp_pair_enocean::flash::{
    command_with_address, read_command, status_is_busy, Address, CMD_ERASE_4K, CMD_PROGRAM,
};
use temp_pair_enocean::hmi_display::HmiDisplay;
use temp_pair_enocean::i2c::I2cAddress;
use temp_pair_enocean::ring_buffer::RingBuffer;
use temp_pair_enocean::spi::SpiMode;
use temp_pair_enocean::uart::{copy_buffer, received_byte, store_received, take_byte};

#[test]
fn spi_modes_have_polarity_and_phase() {
    assert_eq!(
        (SpiMode::WriteFallingOrCsReadRising.cpol(), SpiMode::WriteFallingOrCsReadRising.cpha()),
        (false, false)
    );
    assert_eq!(
        (SpiMode::WriteRisingReadFalling.cpol(), SpiMode::WriteRisingReadFalling.cpha()),
        (false, true)
    );
    assert_eq!(
        (SpiMode::WriteRisingOrCsReadFalling.cpol(), SpiMode::WriteRisingOrCsReadFalling.cpha()),
        (true, false)
    );
    assert_eq!(
        (SpiMode::WriteFallingReadRising.cpol(), SpiMode::WriteFallingReadRising.cpha()),
        (true, true)
    );
}

#[test]
fn i2c_addresses_take_seven_bits() {
    assert_eq!(I2cAddress::new(0).map(|a| a.as_u8()), Some(0));
    assert_eq!(I2cAddress::new(0b0101000).map(|a| a.as_u8()), Some(0x28));
    assert_eq!(I2cAddress::new(0x7F).map(|a| a.as_u8()), Some(0x7F));
    assert_eq!(I2cAddress::new(0x80), None);
    assert_eq!(I2cAddress::new(0xFF), None);
    assert_eq!(I2cAddress::new(0b1110000).map(|a| a.shifted()), Some(0xE0));
    assert_eq!(I2cAddress::new(0x7F).map(|a| a.shifted()), Some(0xFE));
}

#[test]
fn flash_addresses_take_24_bits() {
    assert_eq!(Address::new(0).map(|a| a.as_u32()), Some(0));
    assert_eq!(Address::new(0x00FF_FFFF).map(|a| a.as_u32()), Some(0x00FF_FFFF));
    assert_eq!(Address::new(0x0100_0000), None);
    assert_eq!(Address::new(u32::MAX), None);
    assert_eq!(Address::try_from(0x1234u32).map(u32::from), Ok(0x1234));
    assert_eq!(Address::try_from(0x0100_0000u32), Err(()));
}

#[test]
fn flash_commands_carry_the_address_most_significant_byte_first() {
    let address = Address::new(0x12_3456).unwrap();
    assert_eq!(command_with_address(CMD_ERASE_4K, address), [0x20, 0x12, 0x34, 0x56]);
    assert_eq!(command_with_address(CMD_PROGRAM, address), [0x02, 0x12, 0x34, 0x56]);
    assert_eq!(read_command(address), [0x0B, 0x12, 0x34, 0x56, 0x00]);
    assert_eq!(read_command(Address::new(0).unwrap()), [0x0B, 0, 0, 0, 0]);
    assert_eq!(
        command_with_address(0xD8, Address::new(0xFF_FFFF).unwrap()),
        [0xD8, 0xFF, 0xFF, 0xFF]
    );
}

#[test]
fn flash_is_busy_while_the_lowest_status_bit_is_set() {
    assert!(status_is_busy(0x01));
    assert!(status_is_busy(0xFF));
    assert!(!status_is_busy(0x00));
    assert!(!status_is_busy(0xFE));
}

#[test]
fn uart_divisors_are_rounded() {
    assert_eq!(divide_u32_to_u16_round(CLOCK_SPEED_HZ, 57_600), 434);
    assert_eq!(divide_u32_to_u16_round(CLOCK_SPEED_HZ, 9_600), 2604);
    assert_eq!(divide_u32_to_u16_round(7, 2), 4);
    assert_eq!(divide_u32_to_u16_round(5, 3), 2);
    assert_eq!(divide_u32_to_u16_round(4, 3), 1);
    assert_eq!(divide_u32_to_u16_round(0, 3), 0);
    assert_eq!(divide_u32_to_u16_round(65_535, 1), 65_535);
}

#[test]
fn systick_fires_every_millisecond() {
    assert_eq!(systick_reload_value(CLOCK_SPEED_HZ), Some(3124));
    assert_eq!(systick_reload_value(16_000), Some(1));
    assert_eq!(systick_reload_value(15_999), None);
    assert_eq!(systick_reload_value(0), None);
    assert_eq!(systick_reload_value(u32::MAX), Some(536_869));
}

#[test]
fn received_byte_is_the_low_byte_of_the_register() {
    assert_eq!(received_byte(0x0055), 0x55);
    assert_eq!(received_byte(0x0155), 0x55);
    assert_eq!(received_byte(0xFF00), 0x00);
}

#[test]
fn received_bytes_are_dropped_when_the_queue_is_full() {
    let mut queue: RingBuffer<u8, 4> = RingBuffer::new();
    assert!(store_received(&mut queue, 1));
    assert!(store_received(&mut queue, 2));
    assert!(store_received(&mut queue, 3));
    assert!(!store_received(&mut queue, 4));
    let mut buffer = [0u8; 8];
    assert_eq!(copy_buffer(&queue, &mut buffer), 3);
    assert_eq!(buffer, [1, 2, 3, 0, 0, 0, 0, 0]);
    assert_eq!(take_byte(&mut queue), Some(1));
    assert!(store_received(&mut queue, 5));
    assert_eq!(take_byte(&mut queue), Some(2));
    assert_eq!(take_byte(&mut queue), Some(3));
    assert_eq!(take_byte(&mut queue), Some(5));
    assert_eq!(take_byte(&mut queue), None);
}

#[test]
fn display_frame_starts_at_the_first_row() {
    let panel = HmiDisplay { i2c_address: I2cAddress::new(0).unwrap() };
    assert_eq!(panel.display_frame(&[]), vec![0x01]);
    assert_eq!(panel.display_frame(&[0xAA, 0xBB]), vec![0x01, 0xAA, 0xBB]);
    assert_eq!(
        panel.display_frame(&[1, 2, 3, 4, 5, 6, 7, 8]),
        vec![0x01, 1, 2, 3, 4, 5, 6, 7, 8]
    );
}

#[test]
fn ambient_light_is_read_low_byte_first() {
    let sensor = AmbientLightSensor { i2c_address: I2cAddress::new(0x29).unwrap() };
    assert_eq!(sensor.ambient_light(&[0x34, 0x12]), 0x1234);
    assert_eq!(sensor.ambient_light(&[0xFF, 0xFF]), 0xFFFF);
    assert_eq!(sensor.ambient_light(&[0x00, 0x00]), 0);
}
