use temp_pair_enocean::crc8::crc8;
use temp_pair_enocean::enocean::{process_one_packet, PacketResult};
use temp_pair_enocean::ring_buffer::RingBuffer;
use temp_pair_enocean::telegram::{act_upon_one_packet, decode_temperature, format_matches};
use temp_pair_enocean::temp_display::{Brightness, TempDisplayState};

const OUTSIDE: u32 = 0x0102_0304;
const INSIDE: u32 = 0x0506_0708;

fn showing(first: u8, second: u8, point: bool, third: u8) -> [u8; 36] {
    let mut display = bright_display();
    display.set_digit(0, first, false);
    display.set_digit(1, second, point);
    display.set_digit(2, third, false);
    display.spi_frame()
}

fn bright_display() -> TempDisplayState {
    let mut display = TempDisplayState::new(false);
    display.set_brightness(Brightness::new(0x0FFF).unwrap());
    display
}

fn dark() -> [u8; 36] {
    [0u8; 36]
}

fn decoded(format: u32, data: &[u8]) -> [u8; 36] {
    let mut display = bright_display();
    decode_temperature(format, data, &mut display);
    display.spi_frame()
}

fn packet(packet_type: u8, data: &[u8]) -> PacketResult {
    let header = [(data.len() >> 8) as u8, data.len() as u8, 0, packet_type];
    let mut queue: RingBuffer<u8, 128> = RingBuffer::new();
    let mut bytes = vec![0x55];
    bytes.extend_from_slice(&header);
    bytes.push(crc8(&header));
    bytes.extend_from_slice(data);
    bytes.push(crc8(data));
    for byte in bytes {
        assert!(queue.write(byte));
    }
    let mut outbound = Vec::new();
    let result = process_one_packet(&mut queue, &mut outbound);
    assert!(matches!(result, PacketResult::Packet { .. }));
    result
}

fn acted(result: PacketResult, outside_format: u32, inside_format: u32) -> ([u8; 36], [u8; 36]) {
    let mut top = bright_display();
    let mut bottom = bright_display();
    act_upon_one_packet(
        result,
        OUTSIDE,
        outside_format,
        INSIDE,
        inside_format,
        &mut top,
        &mut bottom,
    );
    (top.spi_frame(), bottom.spi_frame())
}

fn four_byte_telegram(data: [u8; 4], sender: u32) -> Vec<u8> {
    let mut telegram = vec![0xA5];
    telegram.extend_from_slice(&data);
    telegram.extend_from_slice(&sender.to_be_bytes());
    telegram.push(0x00);
    telegram
}

#[test]
fn format_is_named_by_its_upper_byte() {
    assert!(format_matches(0xA5_09_04, 0xA5));
    assert!(!format_matches(0xA5_09_04, 0x09));
    assert!(!format_matches(0xA5_09_04, 0xD2));
    assert!(format_matches(0xD2_00_00, 0xD2));
    assert!(format_matches(0xFF_A5_04_03, 0xA5));
    assert!(format_matches(0, 0));
}

#[test]
fn a5_09_04_shows_fifths_of_a_degree() {
    // 125 * 0.2 degrees = 25.0 degrees
    assert_eq!(decoded(0xA5_09_04, &[0x00, 0x00, 125, 0x08]), showing(b'2', b'5', true, b'0'));
    // 0 degrees: the digit before the point is always shown
    assert_eq!(decoded(0xA5_09_04, &[0x00, 0x00, 0, 0x08]), showing(b' ', b'0', true, b'0'));
    // 49 * 0.2 = 9.8 degrees
    assert_eq!(decoded(0xA5_09_04, &[0xFF, 0xFF, 49, 0x0F]), showing(b' ', b'9', true, b'8'));
    // 50 * 0.2 = 10.0 degrees
    assert_eq!(decoded(0xA5_09_04, &[0x00, 0x00, 50, 0x08]), showing(b'1', b'0', true, b'0'));
    // 255 * 0.2 = 51.0 degrees
    assert_eq!(decoded(0xA5_09_04, &[0x00, 0x00, 255, 0x08]), showing(b'5', b'1', true, b'0'));
}

#[test]
fn a5_04_03_shows_ten_bits_from_minus_twenty_to_sixty() {
    // 0 -> -20.0 degrees, shown without decimal place
    assert_eq!(decoded(0xA5_04_03, &[0x00, 0x00, 0x00, 0x08]), showing(b'-', b'2', false, b'0'));
    // 1023 -> 799 / 10 - 20 = 59.9 degrees
    assert_eq!(decoded(0xA5_04_03, &[0x00, 0x03, 0xFF, 0x08]), showing(b'5', b'9', true, b'9'));
    // 256 -> 200 - 200 = 0.0 degrees
    assert_eq!(decoded(0xA5_04_03, &[0x00, 0x01, 0x00, 0x08]), showing(b' ', b'0', true, b'0'));
    // 250 -> 195 - 200 = -0.5 degrees
    assert_eq!(decoded(0xA5_04_03, &[0x00, 0x00, 250, 0x08]), showing(b'-', b'0', true, b'5'));
    // 243 -> 189 - 200 = -1.1 degrees, shown as -01
    assert_eq!(decoded(0xA5_04_03, &[0x00, 0x00, 243, 0x08]), showing(b'-', b'0', false, b'1'));
    // 244 -> 190 - 200 = -1.0 degrees, shown as -01
    assert_eq!(decoded(0xA5_04_03, &[0x00, 0x00, 244, 0x08]), showing(b'-', b'0', false, b'1'));
    // 245 -> 191 - 200 = -0.9 degrees
    assert_eq!(decoded(0xA5_04_03, &[0x00, 0x00, 245, 0x08]), showing(b'-', b'0', true, b'9'));
    // 384 -> 300 - 200 = 10.0 degrees
    assert_eq!(decoded(0xA5_04_03, &[0x00, 0x01, 0x80, 0x08]), showing(b'1', b'0', true, b'0'));
    // 383 -> 299 - 200 = 9.9 degrees
    assert_eq!(decoded(0xA5_04_03, &[0x00, 0x01, 0x7F, 0x08]), showing(b' ', b'9', true, b'9'));
    // bits above the ten are no part of the temperature
    assert_eq!(decoded(0xA5_04_03, &[0xFF, 0xFD, 0x00, 0xF9]), showing(b' ', b'0', true, b'0'));
}

#[test]
fn teach_in_telegrams_are_ignored() {
    assert_eq!(decoded(0xA5_09_04, &[0x00, 0x00, 125, 0x00]), dark());
    assert_eq!(decoded(0xA5_09_04, &[0x00, 0x00, 125, 0xF7]), dark());
    assert_eq!(decoded(0xA5_04_03, &[0x00, 0x01, 0x00, 0x00]), dark());
}

#[test]
fn data_of_another_length_is_ignored() {
    assert_eq!(decoded(0xA5_09_04, &[]), dark());
    assert_eq!(decoded(0xA5_09_04, &[0x00, 125, 0x08]), dark());
    assert_eq!(decoded(0xA5_09_04, &[0x00, 0x00, 0x00, 125, 0x08]), dark());
    assert_eq!(decoded(0xA5_04_03, &[0x08]), dark());
}

#[test]
fn unknown_formats_are_ignored() {
    assert_eq!(decoded(0xA5_02_05, &[0x00, 0x00, 125, 0x08]), dark());
    assert_eq!(decoded(0, &[0x00, 0x00, 125, 0x08]), dark());
    assert_eq!(decoded(0xFF_A5_09_04, &[0x00, 0x00, 125, 0x08]), dark());
}

#[test]
fn telegram_of_the_outside_sensor_goes_to_the_top_display() {
    let result = packet(0x01, &four_byte_telegram([0x00, 0x00, 125, 0x08], OUTSIDE));
    let (top, bottom) = acted(result, 0xA5_09_04, 0xA5_09_04);
    assert_eq!(top, showing(b'2', b'5', true, b'0'));
    assert_eq!(bottom, dark());
}

#[test]
fn telegram_of_the_inside_sensor_goes_to_the_bottom_display() {
    let result = packet(0x01, &four_byte_telegram([0x00, 0x01, 0x80, 0x08], INSIDE));
    let (top, bottom) = acted(result, 0xA5_09_04, 0xA5_04_03);
    assert_eq!(top, dark());
    assert_eq!(bottom, showing(b'1', b'0', true, b'0'));
}

#[test]
fn telegrams_of_other_senders_are_ignored() {
    let result = packet(0x01, &four_byte_telegram([0x00, 0x00, 125, 0x08], 0x0A0B_0C0D));
    assert_eq!(acted(result, 0xA5_09_04, 0xA5_09_04), (dark(), dark()));
}

#[test]
fn telegrams_of_another_type_than_the_profile_are_ignored() {
    let result = packet(0x01, &four_byte_telegram([0x00, 0x00, 125, 0x08], OUTSIDE));
    assert_eq!(acted(result, 0xD2_09_04, 0xA5_09_04), (dark(), dark()));
    let result = packet(0x01, &four_byte_telegram([0x00, 0x00, 125, 0x08], INSIDE));
    assert_eq!(acted(result, 0xA5_09_04, 0xF6_09_04), (dark(), dark()));
}

#[test]
fn other_results_and_packet_types_are_ignored() {
    for result in [
        PacketResult::BufferEmpty,
        PacketResult::NotSynced,
        PacketResult::NotEnoughBytes,
        PacketResult::Short,
    ] {
        assert_eq!(acted(result, 0xA5_09_04, 0xA5_09_04), (dark(), dark()));
    }
    let telegram = four_byte_telegram([0x00, 0x00, 125, 0x08], OUTSIDE);
    assert_eq!(acted(packet(0x02, &telegram), 0xA5_09_04, 0xA5_09_04), (dark(), dark()));
    assert_eq!(acted(packet(0x0A, &telegram), 0xA5_09_04, 0xA5_09_04), (dark(), dark()));
    assert_eq!(acted(packet(0x01, &[]), 0xA5_09_04, 0xA5_09_04), (dark(), dark()));
}

#[test]
fn telegrams_of_the_wrong_length_are_ignored() {
    let mut telegram = four_byte_telegram([0x00, 0x00, 125, 0x08], OUTSIDE);
    telegram.push(0x00);
    assert_eq!(acted(packet(0x01, &telegram), 0xA5_09_04, 0xA5_09_04), (dark(), dark()));
    telegram.truncate(9);
    assert_eq!(acted(packet(0x01, &telegram), 0xA5_09_04, 0xA5_09_04), (dark(), dark()));
    assert_eq!(
        acted(packet(0x01, &[0xF6, 0x10, 1, 2, 3, 4]), 0xF6_09_04, 0xA5_09_04),
        (dark(), dark())
    );
    assert_eq!(
        acted(packet(0x01, &[0xD2, 1, 2, 3, 4]), 0xD2_09_04, 0xA5_09_04),
        (dark(), dark())
    );
    assert_eq!(
        acted(packet(0x01, &[0x30, 0, 0, 125, 8, 1, 2, 3, 4, 0]), 0x30_09_04, 0xA5_09_04),
        (dark(), dark())
    );
}

#[test]
fn variable_length_telegram_carries_its_data_before_the_sender() {
    // the type byte of the profile has to be that of the telegram, and the
    // data is decoded by the whole profile, which is none of the known ones
    let mut telegram = vec![0xD2, 0x00, 0x00, 125, 0x08];
    telegram.extend_from_slice(&OUTSIDE.to_be_bytes());
    telegram.push(0x00);
    assert_eq!(acted(packet(0x01, &telegram), 0xD2_09_04, 0xA5_09_04), (dark(), dark()));
}

#[test]
fn same_address_for_both_sensors_counts_for_the_outside_sensor() {
    let result = packet(0x01, &four_byte_telegram([0x00, 0x00, 125, 0x08], OUTSIDE));
    let mut top = bright_display();
    let mut bottom = bright_display();
    act_upon_one_packet(result, OUTSIDE, 0xA5_09_04, OUTSIDE, 0xA5_09_04, &mut top, &mut bottom);
    assert_eq!(top.spi_frame(), showing(b'2', b'5', true, b'0'));
    assert_eq!(bottom.spi_frame(), dark());

    let mut top = bright_display();
    let mut bottom = bright_display();
    act_upon_one_packet(result, OUTSIDE, 0xD2_00_00, OUTSIDE, 0xA5_09_04, &mut top, &mut bottom);
    assert_eq!(top.spi_frame(), dark());
    assert_eq!(bottom.spi_frame(), dark());
}
