use temp_pair_enocean::crc8::crc8;

#[test]
fn crc8_of_nothing_is_zero() {
    assert_eq!(crc8(&[]), 0x00);
}

#[test]
fn crc8_check_value() {
    assert_eq!(crc8(b"123456789"), 0xF4);
}

#[test]
fn crc8_of_single_bytes() {
    assert_eq!(crc8(&[0x00]), 0x00);
    assert_eq!(crc8(&[0x01]), 0x07);
    assert_eq!(crc8(&[0x55]), 0xAC);
}

#[test]
fn crc8_is_not_the_identity() {
    assert_ne!(crc8(&[0x01]), 0x01);
}

#[test]
fn crc8_depends_on_the_order() {
    assert_eq!(crc8(&[1, 2]), 0x1B);
    assert_eq!(crc8(&[2, 1]), 0x2D);
}

#[test]
fn crc8_is_deterministic() {
    let message = [0x00u8, 0x02, 0x00, 0x05];
    assert_eq!(crc8(&message), crc8(&message));
    assert_eq!(crc8(&message), 0xCD);
}

#[test]
fn crc8_of_message_with_its_checksum_is_zero() {
    let mut message = vec![0xA5u8, 0x00, 0x00, 0x7D, 0x08];
    let checksum = crc8(&message);
    message.push(checksum);
    assert_eq!(crc8(&message), 0);
}

#[test]
fn crc8_changes_with_any_single_byte() {
    let message = [0x10u8, 0x20, 0x30, 0x40];
    let reference = crc8(&message);
    for position in 0..message.len() {
        for value in 0..=255u8 {
            if value == message[position] {
                continue;
            }
            let mut changed = message;
            changed[position] = value;
            assert_ne!(crc8(&changed), reference);
        }
    }
}
