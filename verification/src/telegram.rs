//! What the node does with a decoded packet: it picks the radio telegrams
//! of its two temperature sensors and shows their readings.

use crate::enocean::{PacketResult, PacketType};
use crate::temp_display::{DisplayView, TempDisplayState};
use vstd::prelude::*;

verus! {

/// The equipment profile A5-09-04: humidity, CO2 and temperature, the
/// temperature in eight bits with steps of 0.2 °C from 0 °C.
pub const FORMAT_A5_09_04: u32 = 0xA5_09_04;

/// The equipment profile A5-04-03: humidity and temperature, the
/// temperature in ten bits from -20 °C to +60 °C.
pub const FORMAT_A5_04_03: u32 = 0xA5_04_03;

/// The number that four bytes spell, most significant byte first.
pub open spec fn be_u32(bytes: Seq<u8>) -> int {
    bytes[0] * 0x100_0000 + bytes[1] * 0x1_0000 + bytes[2] * 0x100 + bytes[3]
}

/// Whether the four data bytes of a telegram carry a reading. A telegram
/// with bit 3 of its last data byte clear is a teach-in telegram.
pub open spec fn carries_reading(data: Seq<u8>) -> bool {
    data.len() == 4 && (data[3] / 8) % 2 == 1
}

/// The temperature in tenths of a degree Celsius that the data bytes of a
/// telegram of the given profile carry.
pub open spec fn tenths_of_degree(format: u32, data: Seq<u8>) -> int {
    if format == FORMAT_A5_09_04 {
        data[2] * 2
    } else {
        (((data[1] % 4) * 256 + data[2]) * 800) / 1024 - 200
    }
}

/// The three characters that show a temperature, and whether the decimal
/// point of the middle one is lit.
pub struct Reading {
    pub first: u8,
    pub second: u8,
    pub third: u8,
    pub point: bool,
}

/// How a temperature between -99.9 °C and 999.9 °C, given in tenths of a
/// degree, is shown on three digits: with one decimal place where it fits,
/// and as a whole number of degrees, cut towards zero, at -1.0 °C and below.
pub open spec fn reading_of(tenths: int) -> Reading {
    if tenths <= -10 {
        Reading {
            first: 0x2D,
            second: (0x30 + (-tenths / 10) / 10) as u8,
            third: (0x30 + (-tenths / 10) % 10) as u8,
            point: false,
        }
    } else if tenths < 0 {
        Reading { first: 0x2D, second: 0x30, third: (0x30 + (-tenths)) as u8, point: true }
    } else if tenths < 100 {
        Reading {
            first: 0x20,
            second: (0x30 + tenths / 10) as u8,
            third: (0x30 + tenths % 10) as u8,
            point: true,
        }
    } else {
        Reading {
            first: (0x30 + tenths / 100) as u8,
            second: (0x30 + (tenths / 10) % 10) as u8,
            third: (0x30 + tenths % 10) as u8,
            point: true,
        }
    }
}

/// The display showing a reading.
pub open spec fn display_showing(display: DisplayView, reading: Reading) -> DisplayView {
    display.with_digit(0, reading.first, false).with_digit(
        1,
        reading.second,
        reading.point,
    ).with_digit(2, reading.third, false)
}

/// The display after a telegram of the given profile with the given data
/// bytes: it shows the reading where the profile is known and the telegram
/// carries one, and stays as it is otherwise.
pub open spec fn display_after(display: DisplayView, format: u32, data: Seq<u8>) -> DisplayView {
    if (format == FORMAT_A5_09_04 || format == FORMAT_A5_04_03) && carries_reading(data) {
        display_showing(display, reading_of(tenths_of_degree(format, data)))
    } else {
        display
    }
}

/// Whether a telegram with the type byte `packet_format` belongs to the
/// profile `known_format`, whose upper byte names the type.
pub fn format_matches(known_format: u32, packet_format: u8) -> (matches: bool)
    ensures
        matches <==> (known_format / 0x1_0000) % 0x100 == packet_format,
{
    let expected_format: u32 = (known_format >> 16) & 0xFF;
    assert(expected_format == (known_format / 0x1_0000) % 0x100) by (bit_vector)
        requires
            expected_format == (known_format >> 16) & 0xFF,
    ;
    expected_format == packet_format as u32
}

fn show_reading(display: &mut TempDisplayState, tenths: i32)
    requires
        -999 <= tenths <= 9999,
    ensures
        final(display).wf(),
        final(display)@ == display_showing(old(display)@, reading_of(tenths as int)),
{
    if tenths <= -10 {
        let abs_temp: i32 = (-tenths) / 10;
        display.set_digit(0, 0x2D, false);
        display.set_digit(1, 0x30 + (abs_temp / 10) as u8, false);
        display.set_digit(2, 0x30 + (abs_temp % 10) as u8, false);
    } else if tenths < 0 {
        let abs_temp: i32 = -tenths;
        display.set_digit(0, 0x2D, false);
        display.set_digit(1, 0x30 + (abs_temp / 10) as u8, true);
        display.set_digit(2, 0x30 + (abs_temp % 10) as u8, false);
    } else if tenths < 100 {
        display.set_digit(0, 0x20, false);
        display.set_digit(1, 0x30 + (tenths / 10) as u8, true);
        display.set_digit(2, 0x30 + (tenths % 10) as u8, false);
    } else {
        display.set_digit(0, 0x30 + (tenths / 100) as u8, false);
        display.set_digit(1, 0x30 + ((tenths / 10) % 10) as u8, true);
        display.set_digit(2, 0x30 + (tenths % 10) as u8, false);
    }
}

/// Shows on `display` the temperature that a telegram of the profile
/// `format` carries in `data_slice`. A telegram of another profile, with
/// other than four data bytes, or sent for teach-in leaves the display as it
/// is.
pub fn decode_temperature(format: u32, data_slice: &[u8], display: &mut TempDisplayState)
    ensures
        final(display).wf(),
        final(display)@ == display_after(old(display)@, format, data_slice@),
{
    proof {
        use_type_invariant(&*display);
    }
    if format != FORMAT_A5_09_04 && format != FORMAT_A5_04_03 {
        return ;
    }
    if data_slice.len() != 4 {
        return ;
    }
    let status: u8 = data_slice[3];
    assert((status & 0b1000 == 0) <==> !((status / 8) % 2 == 1)) by (bit_vector);
    if status & 0b1000 == 0 {
        return ;
    }
    if format == FORMAT_A5_09_04 {
        let temperature_bits: u16 = data_slice[2] as u16;
        let tenths: u16 = temperature_bits * 2;
        show_reading(display, tenths as i32);
    } else {
        let humidity_and_upper: u8 = data_slice[1];
        let upper: u8 = humidity_and_upper & 0x03;
        assert(upper == humidity_and_upper % 4) by (bit_vector)
            requires
                upper == humidity_and_upper & 0x03,
        ;
        let temperature_bits: u32 = (upper as u32) * 256 + (data_slice[2] as u32);
        let tenths: i32 = ((temperature_bits * 800) / 1024) as i32 - 200;
        show_reading(display, tenths);
    }
}

/// The telegram type of a rocker switch.
pub const RORG_RPS: u8 = 0xF6;

/// The telegram type of a one-byte sensor.
pub const RORG_1BS: u8 = 0xD5;

/// The telegram type of a four-byte sensor.
pub const RORG_4BS: u8 = 0xA5;

/// The telegram type with data of variable length.
pub const RORG_VLD: u8 = 0xD2;

/// The parts of a radio telegram that the node reads.
pub struct Telegram {
    /// The type byte of the telegram.
    pub rorg: u8,
    /// The data bytes between the type byte and the sender.
    pub data: Seq<u8>,
    /// The address of the sender.
    pub sender: int,
}

/// Splits the data of a radio packet into type byte, data bytes, the four
/// bytes of the sender and the status byte. The length has to fit the type:
/// seven bytes with one data byte, ten bytes with four data bytes, and at
/// least six bytes with data of variable length. Anything else is no
/// telegram that the node reads.
pub open spec fn telegram_of(payload: Seq<u8>) -> Option<Telegram> {
    if payload.len() < 1 {
        None
    } else if (payload[0] == RORG_RPS || payload[0] == RORG_1BS) && payload.len() == 7 {
        Some(
            Telegram {
                rorg: payload[0],
                data: payload.subrange(1, 2),
                sender: be_u32(payload.subrange(2, 6)),
            },
        )
    } else if payload[0] == RORG_4BS && payload.len() == 10 {
        Some(
            Telegram {
                rorg: payload[0],
                data: payload.subrange(1, 5),
                sender: be_u32(payload.subrange(5, 9)),
            },
        )
    } else if payload[0] == RORG_VLD && payload.len() >= 6 {
        Some(
            Telegram {
                rorg: payload[0],
                data: payload.subrange(1, payload.len() - 5),
                sender: be_u32(payload.subrange(payload.len() - 5, payload.len() - 1)),
            },
        )
    } else {
        None
    }
}

/// The telegram that a result of the framing engine carries, if it carries
/// one: the result is a packet of the type ERP1 whose data is a telegram.
pub open spec fn telegram_in(outcome: crate::enocean::Outcome) -> Option<Telegram> {
    match outcome {
        crate::enocean::Outcome::Packet { packet_type, data, .. } => {
            if packet_type.spec_to_base_type() == 0x01 {
                telegram_of(data)
            } else {
                None
            }
        },
        _ => None,
    }
}

/// Whether the type byte of a telegram is the one that a profile names.
pub open spec fn profile_names(format: u32, rorg: u8) -> bool {
    (format / 0x1_0000) % 0x100 == rorg
}

/// The two displays of the node, the one for the outside sensor first.
pub struct Displays {
    pub top: DisplayView,
    pub bottom: DisplayView,
}

/// The displays after a result of the framing engine. A telegram from the
/// outside sensor changes the top display and one from the inside sensor the
/// bottom display, each only where the telegram is of the profile set for
/// that sensor. Where both sensors have the same address, the telegram
/// counts for the outside sensor alone.
pub open spec fn displays_after(
    displays: Displays,
    outcome: crate::enocean::Outcome,
    outside_address: u32,
    outside_format: u32,
    inside_address: u32,
    inside_format: u32,
) -> Displays {
    match telegram_in(outcome) {
        Some(telegram) => {
            if telegram.sender == outside_address {
                if profile_names(outside_format, telegram.rorg) {
                    Displays {
                        top: display_after(displays.top, outside_format, telegram.data),
                        ..displays
                    }
                } else {
                    displays
                }
            } else if telegram.sender == inside_address && profile_names(
                inside_format,
                telegram.rorg,
            ) {
                Displays {
                    bottom: display_after(displays.bottom, inside_format, telegram.data),
                    ..displays
                }
            } else {
                displays
            }
        },
        None => displays,
    }
}

fn sender_at(payload: &[u8], start: usize) -> (sender: u32)
    requires
        start + 4 <= payload@.len(),
    ensures
        sender == be_u32(payload@.subrange(start as int, start + 4)),
{
    (payload[start] as u32) * 0x100_0000 + (payload[start + 1] as u32) * 0x1_0000 + (payload[start
        + 2] as u32) * 0x100 + (payload[start + 3] as u32)
}

/// Reacts to one result of the framing engine: shows the reading of a
/// telegram from one of the two sensors on the display of that sensor, and
/// does nothing on any other result.
pub fn act_upon_one_packet(
    packet_result: PacketResult,
    outside_address: u32,
    outside_format: u32,
    inside_address: u32,
    inside_format: u32,
    top_display: &mut TempDisplayState,
    bottom_display: &mut TempDisplayState,
)
    ensures
        final(top_display).wf(),
        final(bottom_display).wf(),
        (Displays { top: final(top_display)@, bottom: final(bottom_display)@ }) == displays_after(
            (Displays { top: old(top_display)@, bottom: old(bottom_display)@ }),
            packet_result@,
            outside_address,
            outside_format,
            inside_address,
            inside_format,
        ),
{
    proof {
        use_type_invariant(&*top_display);
        use_type_invariant(&*bottom_display);
    }
    let (packet_type, payload) = match packet_result {
        PacketResult::Packet { packet_type, payload } => (packet_type, payload),
        _ => { return ; },
    };
    if packet_type != PacketType::RadioErp1 {
        return ;
    }
    let payload_data = payload.data();
    let length = payload_data.len();
    if length < 1 {
        return ;
    }
    let rorg: u8 = payload_data[0];
    let data_end: usize = if rorg == RORG_RPS || rorg == RORG_1BS {
        if length != 7 {
            return ;
        }
        2
    } else if rorg == RORG_4BS {
        if length != 10 {
            return ;
        }
        5
    } else if rorg == RORG_VLD {
        if length < 6 {
            return ;
        }
        length - 5
    } else {
        return ;
    };
    let sender = sender_at(payload_data, data_end);
    let data_slice = vstd::slice::slice_subrange(payload_data, 1, data_end);
    if sender == outside_address {
        if !format_matches(outside_format, rorg) {
            return ;
        }
        decode_temperature(outside_format, data_slice, top_display);
    } else if sender == inside_address {
        if !format_matches(inside_format, rorg) {
            return ;
        }
        decode_temperature(inside_format, data_slice, bottom_display);
    }
}

} // verus!
