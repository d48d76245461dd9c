use temp_pair_enocean::setup::{
    decode_keys, group_start, show_nibbles_starting_at, AppState, Configuration, KeyPress,
    SetupEntry,
};
use temp_pair_enocean::temp_display::{Brightness, TempDisplayState};

fn bright_display() -> TempDisplayState {
    let mut display = TempDisplayState::new(false);
    display.set_brightness(Brightness::new(0x0FFF).unwrap());
    display
}

fn showing(characters: &[u8; 3]) -> [u8; 36] {
    let mut display = bright_display();
    for (position, character) in characters.iter().enumerate() {
        display.set_digit(position, *character, false);
    }
    display.spi_frame()
}

fn shown(nibbles: &[u8], start: usize, next: usize) -> ([u8; 36], [u8; 36]) {
    let mut top = bright_display();
    let mut bottom = bright_display();
    top.set_digit(0, b'8', true);
    bottom.set_digit(2, b'8', true);
    show_nibbles_starting_at(nibbles, start, next, &mut top, &mut bottom);
    (top.spi_frame(), bottom.spi_frame())
}

#[test]
fn app_state_counts_the_nibbles() {
    assert_eq!(AppState::Idle.incremented(), AppState::NewSetup(1));
    assert_eq!(AppState::NewSetup(1).incremented(), AppState::NewSetup(2));
    assert_eq!(AppState::NewSetup(26).incremented(), AppState::NewSetup(27));
    assert_eq!(AppState::NewSetup(27).incremented(), AppState::Idle);
    assert_eq!(AppState::NewSetup(28).incremented(), AppState::Idle);
    assert_eq!(AppState::NewSetup(usize::MAX).incremented(), AppState::Idle);
    assert_eq!(AppState::default(), AppState::Idle);
}

#[test]
fn setup_takes_28_nibbles() {
    let mut state = AppState::Idle;
    for entered in 1..28 {
        state = state.incremented();
        assert_eq!(state, AppState::NewSetup(entered));
    }
    assert_eq!(state.incremented(), AppState::Idle);
}

#[test]
fn nibbles_of_the_group_are_shown_from_the_left() {
    let nibbles: Vec<u8> = (0..28u8).map(|n| n % 16).collect();
    assert_eq!(shown(&nibbles, 0, 1), (showing(b"0  "), showing(b"   ")));
    assert_eq!(shown(&nibbles, 0, 3), (showing(b"012"), showing(b"   ")));
    assert_eq!(shown(&nibbles, 0, 4), (showing(b"012"), showing(b"3  ")));
    assert_eq!(shown(&nibbles, 0, 6), (showing(b"012"), showing(b"345")));
    assert_eq!(shown(&nibbles, 8, 14), (showing(b"89A"), showing(b"bCd")));
    assert_eq!(shown(&nibbles, 8, 9), (showing(b"8  "), showing(b"   ")));
}

#[test]
fn only_the_last_six_nibbles_of_a_long_group_are_shown() {
    let nibbles: Vec<u8> = (0..28u8).map(|n| n % 16).collect();
    assert_eq!(shown(&nibbles, 0, 7), (showing(b"123"), showing(b"456")));
    assert_eq!(shown(&nibbles, 0, 8), (showing(b"234"), showing(b"567")));
    assert_eq!(shown(&nibbles, 14, 22), (showing(b"012"), showing(b"345")));
    assert_eq!(shown(&nibbles, 14, 21), (showing(b"F01"), showing(b"234")));
}

#[test]
fn nothing_is_shown_before_the_group_starts() {
    let nibbles = [1u8; 28];
    assert_eq!(shown(&nibbles, 8, 8), (showing(b"   "), showing(b"   ")));
    assert_eq!(shown(&nibbles, 8, 3), (showing(b"   "), showing(b"   ")));
    assert_eq!(shown(&[], 8, 3), (showing(b"   "), showing(b"   ")));
    assert_eq!(shown(&[], 0, 0), (showing(b"   "), showing(b"   ")));
}

#[test]
fn groups_start_at_0_8_14_and_22() {
    for next in 0..=8 {
        assert_eq!(group_start(next), 0);
    }
    for next in 9..=14 {
        assert_eq!(group_start(next), 8);
    }
    for next in 15..=22 {
        assert_eq!(group_start(next), 14);
    }
    for next in 23..=28 {
        assert_eq!(group_start(next), 22);
    }
}

#[test]
fn keys_are_reported_as_zero_bits() {
    assert_eq!(decode_keys(&[0xFF, 0xFF]), KeyPress::Nothing);
    assert_eq!(decode_keys(&[0xFF, 0xFE]), KeyPress::Single(0));
    assert_eq!(decode_keys(&[0xFF, 0x7F]), KeyPress::Single(7));
    assert_eq!(decode_keys(&[0xFE, 0xFF]), KeyPress::Single(8));
    assert_eq!(decode_keys(&[0x7F, 0xFF]), KeyPress::Single(15));
    assert_eq!(decode_keys(&[0xFF, 0xFC]), KeyPress::Several);
    assert_eq!(decode_keys(&[0xFE, 0xFE]), KeyPress::Several);
    assert_eq!(decode_keys(&[0x00, 0x00]), KeyPress::Several);
}

#[test]
fn every_single_key_has_its_number() {
    for button in 0..16u32 {
        let pressed = !(1u16 << button);
        let scan = [(pressed >> 8) as u8, pressed as u8];
        assert_eq!(decode_keys(&scan), KeyPress::Single(button as u8));
    }
}

#[test]
fn configuration_is_read_from_14_bytes() {
    let bytes = [
        0x01, 0x02, 0x03, 0x04, 0xA5, 0x09, 0x04, 0x05, 0x06, 0x07, 0x08, 0xA5, 0x04, 0x03,
    ];
    let configuration = Configuration::from_bytes(&bytes);
    assert_eq!(
        configuration,
        Configuration {
            outside_address: 0x0102_0304,
            outside_format: 0xA5_09_04,
            inside_address: 0x0506_0708,
            inside_format: 0xA5_04_03,
        }
    );
    assert_eq!(configuration.to_bytes(), bytes);
}

#[test]
fn configuration_bytes_round_trip() {
    let erased = [0xFFu8; 14];
    let configuration = Configuration::from_bytes(&erased);
    assert_eq!(configuration.outside_address, 0xFFFF_FFFF);
    assert_eq!(configuration.outside_format, 0x00FF_FFFF);
    assert_eq!(configuration.to_bytes(), erased);
    assert_eq!(Configuration::from_bytes(&[0u8; 14]).to_bytes(), [0u8; 14]);
}

#[test]
fn upper_byte_of_a_profile_is_not_kept() {
    let configuration = Configuration {
        outside_address: 1,
        outside_format: 0x12_A5_09_04,
        inside_address: 2,
        inside_format: 0,
    };
    let bytes = configuration.to_bytes();
    assert_eq!(bytes, [0, 0, 0, 1, 0xA5, 0x09, 0x04, 0, 0, 0, 2, 0, 0, 0]);
    assert_eq!(Configuration::from_bytes(&bytes).outside_format, 0xA5_09_04);
}

#[test]
fn configuration_is_read_from_28_nibbles() {
    let nibbles = [
        0x0, 0x1, 0x0, 0x2, 0x0, 0x3, 0x0, 0x4, 0xA, 0x5, 0x0, 0x9, 0x0, 0x4, 0xF, 0xE, 0xD, 0xC,
        0xB, 0xA, 0x9, 0x8, 0xA, 0x5, 0x0, 0x4, 0x0, 0x3,
    ];
    assert_eq!(
        Configuration::from_nibbles(&nibbles),
        Configuration {
            outside_address: 0x0102_0304,
            outside_format: 0xA5_09_04,
            inside_address: 0xFEDC_BA98,
            inside_format: 0xA5_04_03,
        }
    );
}

#[test]
fn entering_a_configuration_shows_the_groups_and_completes() {
    let nibbles = [
        0x0, 0x1, 0x0, 0x2, 0x0, 0x3, 0x0, 0x4, 0xA, 0x5, 0x0, 0x9, 0x0, 0x4, 0xF, 0xE, 0xD, 0xC,
        0xB, 0xA, 0x9, 0x8, 0xA, 0x5, 0x0, 0x4, 0x0, 0x3,
    ];
    let mut entry = SetupEntry::new();
    assert_eq!(entry.state(), AppState::Idle);
    let mut top = bright_display();
    let mut bottom = bright_display();
    for (index, nibble) in nibbles.iter().enumerate().take(27) {
        assert_eq!(entry.press(*nibble, &mut top, &mut bottom), None);
        assert_eq!(entry.state(), AppState::NewSetup(index + 1));
        if index == 0 {
            assert_eq!((top.spi_frame(), bottom.spi_frame()), (showing(b"0  "), showing(b"   ")));
        }
        if index == 7 {
            assert_eq!((top.spi_frame(), bottom.spi_frame()), (showing(b"020"), showing(b"304")));
        }
        if index == 8 {
            assert_eq!((top.spi_frame(), bottom.spi_frame()), (showing(b"A  "), showing(b"   ")));
        }
        if index == 13 {
            assert_eq!((top.spi_frame(), bottom.spi_frame()), (showing(b"A50"), showing(b"904")));
        }
        if index == 14 {
            assert_eq!((top.spi_frame(), bottom.spi_frame()), (showing(b"F  "), showing(b"   ")));
        }
        if index == 22 {
            assert_eq!((top.spi_frame(), bottom.spi_frame()), (showing(b"A  "), showing(b"   ")));
        }
    }
    let completed = entry.press(nibbles[27], &mut top, &mut bottom);
    assert_eq!(completed, Some(Configuration::from_nibbles(&nibbles)));
    assert_eq!(entry.state(), AppState::Idle);
    assert_eq!((top.spi_frame(), bottom.spi_frame()), (showing(b"   "), showing(b"   ")));
}

#[test]
fn first_nibble_clears_what_was_entered_before() {
    let mut entry = SetupEntry::new();
    let mut top = bright_display();
    let mut bottom = bright_display();
    for _ in 0..5 {
        assert_eq!(entry.press(0xF, &mut top, &mut bottom), None);
    }
    entry.cancel();
    assert_eq!(entry.state(), AppState::Idle);
    for _ in 0..27 {
        assert_eq!(entry.press(0x0, &mut top, &mut bottom), None);
    }
    let completed = entry.press(0x1, &mut top, &mut bottom).unwrap();
    assert_eq!(completed.outside_address, 0);
    assert_eq!(completed.inside_format, 1);
}

#[test]
fn nibbles_above_fifteen_spill_upwards() {
    let mut nibbles = [0u8; 28];
    nibbles[1] = 0x1F;
    nibbles[7] = 0xFF;
    nibbles[8] = 0x12;
    nibbles[22] = 0xFF;
    let configuration = Configuration::from_nibbles(&nibbles);
    assert_eq!(configuration.outside_address, 0x1F00_00FF);
    assert_eq!(configuration.outside_format, 0x0120_0000);
    assert_eq!(configuration.inside_address, 0);
    assert_eq!(configuration.inside_format, 0x0FF0_0000);

    nibbles = [0u8; 28];
    nibbles[0] = 0x10;
    nibbles[14] = 0xFF;
    let configuration = Configuration::from_nibbles(&nibbles);
    assert_eq!(configuration.outside_address, 0);
    assert_eq!(configuration.inside_address, 0xF000_0000);
}
