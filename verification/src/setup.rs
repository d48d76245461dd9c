//! Entering a new configuration with the sixteen buttons of the node.
//!
//! A configuration is 28 nibbles long: eight for the address of the outside
//! sensor, six for its profile, eight for the address of the inside sensor
//! and six for its profile. While it is entered, the displays show the
//! nibbles of the group that is being entered.

use crate::temp_display::{nibble_character, DisplayView, TempDisplayState};
use vstd::prelude::*;

verus! {

/// The number of nibbles of a configuration.
pub const SETUP_NIBBLES: usize = 28;

/// Where the node stands in entering a configuration.
#[derive(Clone, Copy, Debug, PartialEq, Eq, Hash, PartialOrd, Ord)]
pub enum AppState {
    /// No configuration is being entered.
    Idle,
    /// A configuration is being entered, and this many nibbles of it have
    /// been.
    NewSetup(usize),
}

impl Default for AppState {
    fn default() -> (state: AppState)
        ensures
            state == AppState::Idle,
    {
        AppState::Idle
    }
}

impl AppState {
    /// The state after one more nibble: the first nibble starts a
    /// configuration, and the last one completes it.
    pub open spec fn spec_incremented(self) -> AppState {
        match self {
            AppState::Idle => AppState::NewSetup(1),
            AppState::NewSetup(i) => if i < 27 {
                AppState::NewSetup((i + 1) as usize)
            } else {
                AppState::Idle
            },
        }
    }

    /// The state after one more nibble has been entered.
    pub fn incremented(&self) -> (next: Self)
        ensures
            next == self.spec_incremented(),
    {
        match self {
            Self::Idle => Self::NewSetup(1),
            Self::NewSetup(i) => if *i < 27 {
                Self::NewSetup(*i + 1)
            } else {
                Self::Idle
            },
        }
    }

    /// Entering a configuration from the idle state takes 28 nibbles and
    /// ends in the idle state.
    pub proof fn lemma_setup_takes_28_nibbles(entered: nat)
        requires
            1 <= entered <= 27,
        ensures
            after_nibbles(AppState::Idle, entered) == AppState::NewSetup(entered as usize),
            after_nibbles(AppState::Idle, 28) == AppState::Idle,
    {
        reveal_with_fuel(after_nibbles, 2);
        lemma_counts(entered);
        lemma_counts(27);
    }
}

/// The state after `count` more nibbles.
pub open spec fn after_nibbles(state: AppState, count: nat) -> AppState
    decreases count,
{
    if count == 0 {
        state
    } else {
        after_nibbles(state, (count - 1) as nat).spec_incremented()
    }
}

proof fn lemma_counts(entered: nat)
    requires
        1 <= entered <= 27,
    ensures
        after_nibbles(AppState::Idle, entered) == AppState::NewSetup(entered as usize),
    decreases entered,
{
    reveal_with_fuel(after_nibbles, 2);
    if entered > 1 {
        lemma_counts((entered - 1) as nat);
    }
}

/// The nibbles that the displays show while a group is entered: those from
/// `start` up to `next`, and only the last six where there are more. Nothing
/// is shown where `next` lies before `start`.
pub open spec fn shown_nibbles(nibbles: Seq<u8>, start: int, next: int) -> Seq<u8> {
    if next < start {
        Seq::<u8>::empty()
    } else if next > start + 6 {
        nibbles.subrange(next - 6, next)
    } else {
        nibbles.subrange(start, next)
    }
}

/// The character at place `place` of the shown nibbles: the hexadecimal
/// digit of the nibble there, and a space behind the last one.
pub open spec fn shown_character(shown: Seq<u8>, place: int) -> u8 {
    if place < shown.len() {
        nibble_character(shown[place])
    } else {
        0x20
    }
}

/// A display showing three characters of the shown nibbles, from place
/// `first` on.
pub open spec fn display_with_nibbles(display: DisplayView, shown: Seq<u8>, first: int)
    -> DisplayView {
    display.with_digit(0, shown_character(shown, first), false).with_digit(
        1,
        shown_character(shown, first + 1),
        false,
    ).with_digit(2, shown_character(shown, first + 2), false)
}

fn nibble_or_blank(nibbles: &[u8], place: usize) -> (nibble: u8)
    ensures
        nibble_character(nibble) == shown_character(nibbles@, place as int),
{
    if place < nibbles.len() {
        nibbles[place]
    } else {
        0x10
    }
}

/// Shows the nibbles of the group that starts at `start_nibble_index`, up
/// to `next_nibble_index`, on the six digits of the two displays, the top
/// display first. Where the nibbles up to `next_nibble_index` are shown,
/// they have to be there.
pub fn show_nibbles_starting_at(
    new_setup_nibbles: &[u8],
    start_nibble_index: usize,
    next_nibble_index: usize,
    top_display: &mut TempDisplayState,
    bottom_display: &mut TempDisplayState,
)
    requires
        start_nibble_index + 6 <= usize::MAX,
        next_nibble_index >= start_nibble_index ==> next_nibble_index <= new_setup_nibbles@.len(),
    ensures
        final(top_display).wf(),
        final(bottom_display).wf(),
        final(top_display)@ == display_with_nibbles(
            old(top_display)@,
            shown_nibbles(
                new_setup_nibbles@,
                start_nibble_index as int,
                next_nibble_index as int,
            ),
            0,
        ),
        final(bottom_display)@ == display_with_nibbles(
            old(bottom_display)@,
            shown_nibbles(
                new_setup_nibbles@,
                start_nibble_index as int,
                next_nibble_index as int,
            ),
            3,
        ),
{
    let nibble_slice: &[u8] = if next_nibble_index < start_nibble_index {
        vstd::slice::slice_subrange(new_setup_nibbles, 0, 0)
    } else if next_nibble_index > start_nibble_index + 6 {
        vstd::slice::slice_subrange(new_setup_nibbles, next_nibble_index - 6, next_nibble_index)
    } else {
        vstd::slice::slice_subrange(new_setup_nibbles, start_nibble_index, next_nibble_index)
    };
    assert(nibble_slice@ =~= shown_nibbles(
        new_setup_nibbles@,
        start_nibble_index as int,
        next_nibble_index as int,
    ));
    top_display.set_nibble_digit(0, nibble_or_blank(nibble_slice, 0), false);
    top_display.set_nibble_digit(1, nibble_or_blank(nibble_slice, 1), false);
    top_display.set_nibble_digit(2, nibble_or_blank(nibble_slice, 2), false);
    bottom_display.set_nibble_digit(0, nibble_or_blank(nibble_slice, 3), false);
    bottom_display.set_nibble_digit(1, nibble_or_blank(nibble_slice, 4), false);
    bottom_display.set_nibble_digit(2, nibble_or_blank(nibble_slice, 5), false);
}

/// What the sixteen buttons say in one scan.
#[derive(Clone, Copy, Debug, PartialEq, Eq)]
pub enum KeyPress {
    /// No button is pressed.
    Nothing,
    /// More than one button is pressed.
    Several,
    /// The button with this number, 0 to 15, is pressed alone.
    Single(u8),
}

/// The buttons that are pressed, one bit for each. The scanner reports a
/// pressed button as a zero bit, the buttons 8 to 15 in its first byte.
pub open spec fn pressed_buttons(key_values: Seq<u8>) -> int {
    0xFFFF - (key_values[0] * 256 + key_values[1])
}

/// Two to the power of `exponent`, for exponents up to 15.
pub open spec fn button_bit(exponent: int) -> int {
    if exponent == 0 {
        0x0001
    } else if exponent == 1 {
        0x0002
    } else if exponent == 2 {
        0x0004
    } else if exponent == 3 {
        0x0008
    } else if exponent == 4 {
        0x0010
    } else if exponent == 5 {
        0x0020
    } else if exponent == 6 {
        0x0040
    } else if exponent == 7 {
        0x0080
    } else if exponent == 8 {
        0x0100
    } else if exponent == 9 {
        0x0200
    } else if exponent == 10 {
        0x0400
    } else if exponent == 11 {
        0x0800
    } else if exponent == 12 {
        0x1000
    } else if exponent == 13 {
        0x2000
    } else if exponent == 14 {
        0x4000
    } else {
        0x8000
    }
}

/// What a scan says, given the buttons that are pressed.
pub open spec fn key_press_of(pressed: int) -> KeyPress {
    if pressed == 0 {
        KeyPress::Nothing
    } else if exists|button: int| 0 <= button < 16 && pressed == #[trigger] button_bit(button) {
        KeyPress::Single(
            (choose|button: int| 0 <= button < 16 && pressed == #[trigger] button_bit(button)) as u8,
        )
    } else {
        KeyPress::Several
    }
}

/// Reads one scan of the buttons.
pub fn decode_keys(key_values: &[u8; 2]) -> (press: KeyPress)
    ensures
        press == key_press_of(pressed_buttons(key_values@)),
{
    let negated_all_key_values: u16 = (key_values[0] as u16) * 256 + (key_values[1] as u16);
    let all_key_values: u16 = 0xFFFF - negated_all_key_values;
    let value: u8 = match all_key_values {
        0x0000 => { return KeyPress::Nothing; },
        0x0001 => 0,
        0x0002 => 1,
        0x0004 => 2,
        0x0008 => 3,
        0x0010 => 4,
        0x0020 => 5,
        0x0040 => 6,
        0x0080 => 7,
        0x0100 => 8,
        0x0200 => 9,
        0x0400 => 10,
        0x0800 => 11,
        0x1000 => 12,
        0x2000 => 13,
        0x4000 => 14,
        0x8000 => 15,
        _ => {
            return KeyPress::Several;
        },
    };
    proof {
        lemma_single_press(all_key_values as int, value as int);
    }
    KeyPress::Single(value)
}

proof fn lemma_single_press(pressed: int, button: int)
    requires
        0 <= button < 16,
        pressed == button_bit(button),
    ensures
        key_press_of(pressed) == KeyPress::Single(button as u8),
{
    let chosen = choose|b: int| 0 <= b < 16 && pressed == #[trigger] button_bit(b);
    assert(0 <= chosen < 16 && pressed == button_bit(chosen));
}

/// The addresses and profiles of the two sensors.
#[derive(Clone, Copy, Debug, PartialEq, Eq)]
pub struct Configuration {
    pub outside_address: u32,
    pub outside_format: u32,
    pub inside_address: u32,
    pub inside_format: u32,
}

/// The number that the bytes `bytes[start .. start + count]` spell, most
/// significant byte first.
pub open spec fn be_number(bytes: Seq<u8>, start: int, count: nat) -> int
    decreases count,
{
    if count == 0 {
        0
    } else {
        be_number(bytes, start, (count - 1) as nat) * 256 + bytes[start + count - 1]
    }
}

/// The number that the nibbles `nibbles[start .. start + count]` spell,
/// most significant nibble first, where each of them is below 16.
pub open spec fn nibble_number(nibbles: Seq<u8>, start: int, count: nat) -> int
    decreases count,
{
    if count == 0 {
        0
    } else {
        nibble_number(nibbles, start, (count - 1) as nat) * 16 + nibbles[start + count - 1]
    }
}

/// The bits that the values `nibbles[start .. start + count]` give when
/// each is laid four bits above the next. A value of 16 or more spills into
/// the nibbles above it, and what leaves the 32 bits is lost.
pub open spec fn nibble_bits(nibbles: Seq<u8>, start: int, count: nat) -> u32
    decreases count,
{
    if count == 0 {
        0
    } else {
        (nibble_bits(nibbles, start, (count - 1) as nat) << 4) | (nibbles[start + count
            - 1] as u32)
    }
}

/// Byte `place` of the `count` bytes that spell `value`, most significant
/// byte first.
pub open spec fn be_byte(value: int, count: int, place: int) -> u8 {
    if place == count - 1 {
        (value % 256) as u8
    } else if place == count - 2 {
        ((value / 0x100) % 256) as u8
    } else if place == count - 3 {
        ((value / 0x1_0000) % 256) as u8
    } else {
        ((value / 0x100_0000) % 256) as u8
    }
}

impl Configuration {
    /// The configuration that 14 bytes of flash memory spell: four bytes of
    /// outside address, three of outside profile, four of inside address and
    /// three of inside profile.
    pub open spec fn spec_from_bytes(bytes: Seq<u8>) -> Configuration {
        Configuration {
            outside_address: be_number(bytes, 0, 4) as u32,
            outside_format: be_number(bytes, 4, 3) as u32,
            inside_address: be_number(bytes, 7, 4) as u32,
            inside_format: be_number(bytes, 11, 3) as u32,
        }
    }

    /// The 14 bytes that spell this configuration. Of a profile only the
    /// lower three bytes are kept.
    pub open spec fn spec_to_bytes(self) -> Seq<u8> {
        Seq::new(
            14,
            |i: int|
                if i < 4 {
                    be_byte(self.outside_address as int, 4, i)
                } else if i < 7 {
                    be_byte(self.outside_format as int, 3, i - 4)
                } else if i < 11 {
                    be_byte(self.inside_address as int, 4, i - 7)
                } else {
                    be_byte(self.inside_format as int, 3, i - 11)
                },
        )
    }

    /// The configuration that 28 nibbles give: eight nibbles of outside
    /// address, six of outside profile, eight of inside address and six of
    /// inside profile.
    pub open spec fn spec_from_nibbles(nibbles: Seq<u8>) -> Configuration {
        Configuration {
            outside_address: nibble_bits(nibbles, 0, 8),
            outside_format: nibble_bits(nibbles, 8, 6),
            inside_address: nibble_bits(nibbles, 14, 8),
            inside_format: nibble_bits(nibbles, 22, 6),
        }
    }

    /// Reads a configuration from the bytes kept in flash memory.
    pub fn from_bytes(bytes: &[u8; 14]) -> (configuration: Configuration)
        ensures
            configuration == Self::spec_from_bytes(bytes@),
    {
        proof {
            reveal_with_fuel(be_number, 5);
        }
        Configuration {
            outside_address: read_be(bytes, 0, 4),
            outside_format: read_be(bytes, 4, 3),
            inside_address: read_be(bytes, 7, 4),
            inside_format: read_be(bytes, 11, 3),
        }
    }

    /// Spells a configuration as the bytes to keep in flash memory.
    pub fn to_bytes(&self) -> (bytes: [u8; 14])
        ensures
            bytes@ == self.spec_to_bytes(),
    {
        let bytes: [u8; 14] = [
            byte_of(self.outside_address, 3),
            byte_of(self.outside_address, 2),
            byte_of(self.outside_address, 1),
            byte_of(self.outside_address, 0),
            byte_of(self.outside_format, 2),
            byte_of(self.outside_format, 1),
            byte_of(self.outside_format, 0),
            byte_of(self.inside_address, 3),
            byte_of(self.inside_address, 2),
            byte_of(self.inside_address, 1),
            byte_of(self.inside_address, 0),
            byte_of(self.inside_format, 2),
            byte_of(self.inside_format, 1),
            byte_of(self.inside_format, 0),
        ];
        assert(bytes@ =~= self.spec_to_bytes());
        bytes
    }

    /// Reads a configuration from the nibbles that were entered.
    pub fn from_nibbles(nibbles: &[u8; 28]) -> (configuration: Configuration)
        ensures
            configuration == Self::spec_from_nibbles(nibbles@),
    {
        Configuration {
            outside_address: read_nibbles(nibbles, 0, 8),
            outside_format: read_nibbles(nibbles, 8, 6),
            inside_address: read_nibbles(nibbles, 14, 8),
            inside_format: read_nibbles(nibbles, 22, 6),
        }
    }

    /// The bytes kept in flash memory spell one configuration, and that
    /// configuration is spelled by the same bytes.
    pub proof fn lemma_bytes_round_trip(bytes: Seq<u8>)
        requires
            bytes.len() == 14,
        ensures
            Self::spec_from_bytes(bytes).spec_to_bytes() == bytes,
    {
        let configuration = Self::spec_from_bytes(bytes);
        lemma_be_number_digits(bytes, 0, 4);
        lemma_be_number_digits(bytes, 4, 3);
        lemma_be_number_digits(bytes, 7, 4);
        lemma_be_number_digits(bytes, 11, 3);
        let spelled = configuration.spec_to_bytes();
        assert forall|i: int| 0 <= i < 14 implies spelled[i] == bytes[i] by {
            if i < 4 {
                assert(spelled[i] == be_byte(configuration.outside_address as int, 4, i));
            } else if i < 7 {
                assert(spelled[i] == be_byte(configuration.outside_format as int, 3, i - 4));
            } else if i < 11 {
                assert(spelled[i] == be_byte(configuration.inside_address as int, 4, i - 7));
            } else {
                assert(spelled[i] == be_byte(configuration.inside_format as int, 3, i - 11));
            }
        }
        assert(spelled =~= bytes);
    }

    /// A configuration whose profiles fit into three bytes is read back
    /// from its bytes unchanged.
    pub proof fn lemma_configuration_round_trip(configuration: Configuration)
        requires
            configuration.outside_format <= 0xFF_FFFF,
            configuration.inside_format <= 0xFF_FFFF,
        ensures
            Self::spec_from_bytes(configuration.spec_to_bytes()) == configuration,
    {
        let bytes = configuration.spec_to_bytes();
        lemma_be_number_of_digits(bytes, 0, 4, configuration.outside_address as int);
        lemma_be_number_of_digits(bytes, 4, 3, configuration.outside_format as int);
        lemma_be_number_of_digits(bytes, 7, 4, configuration.inside_address as int);
        lemma_be_number_of_digits(bytes, 11, 3, configuration.inside_format as int);
    }
}

/// The bytes that spell a number are its digits to the base 256.
proof fn lemma_be_number_digits(bytes: Seq<u8>, start: int, count: int)
    requires
        3 <= count <= 4,
        0 <= start,
        start + count <= bytes.len(),
    ensures
        0 <= be_number(bytes, start, count as nat) <= u32::MAX,
        forall|place: int|
            0 <= place < count ==> #[trigger] be_byte(
                be_number(bytes, start, count as nat),
                count,
                place,
            ) == bytes[start + place],
{
    reveal_with_fuel(be_number, 5);
    let b0 = bytes[start] as int;
    let b1 = bytes[start + 1] as int;
    let b2 = bytes[start + 2] as int;
    if count == 3 {
        let value = (b0 * 256 + b1) * 256 + b2;
        assert(be_number(bytes, start, 3) == value);
        lemma_digits(0, b0, b1, b2);
    } else {
        let b3 = bytes[start + 3] as int;
        let value = ((b0 * 256 + b1) * 256 + b2) * 256 + b3;
        assert(be_number(bytes, start, 4) == value);
        lemma_digits(b0, b1, b2, b3);
    }
}

proof fn lemma_digits(d3: int, d2: int, d1: int, d0: int)
    requires
        0 <= d3 < 256,
        0 <= d2 < 256,
        0 <= d1 < 256,
        0 <= d0 < 256,
    ensures
        0 <= ((d3 * 256 + d2) * 256 + d1) * 256 + d0 <= u32::MAX,
        (((d3 * 256 + d2) * 256 + d1) * 256 + d0) % 256 == d0,
        ((((d3 * 256 + d2) * 256 + d1) * 256 + d0) / 0x100) % 256 == d1,
        ((((d3 * 256 + d2) * 256 + d1) * 256 + d0) / 0x1_0000) % 256 == d2,
        ((((d3 * 256 + d2) * 256 + d1) * 256 + d0) / 0x100_0000) % 256 == d3,
{
}

/// The digits of a number to the base 256 spell that number.
proof fn lemma_be_number_of_digits(bytes: Seq<u8>, start: int, count: int, value: int)
    requires
        3 <= count <= 4,
        0 <= start,
        start + count <= bytes.len(),
        0 <= value <= u32::MAX,
        count == 3 ==> value <= 0xFF_FFFF,
        forall|place: int| 0 <= place < count ==> bytes[start + place] == be_byte(value, count, place),
    ensures
        be_number(bytes, start, count as nat) == value,
{
    reveal_with_fuel(be_number, 5);
    let d0 = value % 256;
    let d1 = (value / 0x100) % 256;
    let d2 = (value / 0x1_0000) % 256;
    let d3 = (value / 0x100_0000) % 256;
    assert(value == ((d3 * 256 + d2) * 256 + d1) * 256 + d0);
    if count == 3 {
        assert(d3 == 0);
        assert(bytes[start] == be_byte(value, 3, 0));
        assert(bytes[start + 1] == be_byte(value, 3, 1));
        assert(bytes[start + 2] == be_byte(value, 3, 2));
        assert(be_number(bytes, start, 3) == (d2 * 256 + d1) * 256 + d0);
    } else {
        assert(bytes[start] == be_byte(value, 4, 0));
        assert(bytes[start + 1] == be_byte(value, 4, 1));
        assert(bytes[start + 2] == be_byte(value, 4, 2));
        assert(bytes[start + 3] == be_byte(value, 4, 3));
        assert(be_number(bytes, start, 4) == ((d3 * 256 + d2) * 256 + d1) * 256 + d0);
    }
}

fn read_be(bytes: &[u8; 14], start: usize, count: usize) -> (value: u32)
    requires
        count <= 4,
        start + count <= 14,
    ensures
        value == be_number(bytes@, start as int, count as nat),
{
    let mut value: u32 = 0;
    let mut done: usize = 0;
    while done < count
        invariant
            done <= count <= 4,
            start + count <= 14,
            value == be_number(bytes@, start as int, done as nat),
            value < pow256(done as nat),
        decreases count - done,
    {
        proof {
            reveal_with_fuel(pow256, 5);
        }
        value = value * 256 + (bytes[start + done] as u32);
        done = done + 1;
    }
    value
}

fn read_nibbles(nibbles: &[u8; 28], start: usize, count: usize) -> (value: u32)
    requires
        count <= 8,
        start + count <= 28,
    ensures
        value == nibble_bits(nibbles@, start as int, count as nat),
{
    let mut value: u32 = 0;
    let mut done: usize = 0;
    while done < count
        invariant
            done <= count <= 8,
            start + count <= 28,
            value == nibble_bits(nibbles@, start as int, done as nat),
        decreases count - done,
    {
        value = (value << 4) | (nibbles[start + done] as u32);
        done = done + 1;
    }
    value
}

/// Nibbles below 16 give the number that they spell as hexadecimal digits.
pub proof fn lemma_nibbles_spell_number(nibbles: Seq<u8>, start: int, count: nat)
    requires
        count <= 8,
        0 <= start,
        start + count <= nibbles.len(),
        forall|i: int| start <= i < start + count ==> nibbles[i] < 16,
    ensures
        nibble_bits(nibbles, start, count) == nibble_number(nibbles, start, count),
        nibble_number(nibbles, start, count) < pow16(count),
    decreases count,
{
    reveal_with_fuel(pow16, 9);
    if count > 0 {
        lemma_nibbles_spell_number(nibbles, start, (count - 1) as nat);
        let above: u32 = nibble_bits(nibbles, start, (count - 1) as nat);
        let nibble: u32 = nibbles[start + count - 1] as u32;
        assert(above < 0x1000_0000 && nibble < 16 ==> (above << 4) | nibble == above * 16
            + nibble) by (bit_vector);
    }
}

/// 256 to the power of `exponent`.
pub open spec fn pow256(exponent: nat) -> int
    decreases exponent,
{
    if exponent == 0 {
        1
    } else {
        256 * pow256((exponent - 1) as nat)
    }
}

/// 16 to the power of `exponent`.
pub open spec fn pow16(exponent: nat) -> int
    decreases exponent,
{
    if exponent == 0 {
        1
    } else {
        16 * pow16((exponent - 1) as nat)
    }
}

fn byte_of(value: u32, place: usize) -> (byte: u8)
    requires
        place < 4,
    ensures
        place == 0 ==> byte == value % 256,
        place == 1 ==> byte == (value / 0x100) % 256,
        place == 2 ==> byte == (value / 0x1_0000) % 256,
        place == 3 ==> byte == (value / 0x100_0000) % 256,
{
    let shifted: u32 = if place == 0 {
        value
    } else if place == 1 {
        value / 0x100
    } else if place == 2 {
        value / 0x1_0000
    } else {
        value / 0x100_0000
    };
    (shifted % 256) as u8
}

/// The first nibble of the group that nibble `next_nibble_index - 1` belongs
/// to: the groups start at the nibbles 0, 8, 14 and 22.
pub open spec fn spec_group_start(next_nibble_index: int) -> int {
    if next_nibble_index <= 8 {
        0
    } else if next_nibble_index <= 14 {
        8
    } else if next_nibble_index <= 22 {
        14
    } else {
        22
    }
}

/// The first nibble of the group that is being entered when
/// `next_nibble_index` nibbles have been.
pub fn group_start(next_nibble_index: usize) -> (start: usize)
    ensures
        start == spec_group_start(next_nibble_index as int),
{
    if next_nibble_index <= 8 {
        0
    } else if next_nibble_index <= 14 {
        8
    } else if next_nibble_index <= 22 {
        14
    } else {
        22
    }
}

/// A display with all three digits dark.
pub open spec fn display_blank(display: DisplayView) -> DisplayView {
    display.with_digit(0, 0x20, false).with_digit(1, 0x20, false).with_digit(2, 0x20, false)
}

/// What entering a configuration holds.
pub struct SetupView {
    pub state: AppState,
    pub nibbles: Seq<u8>,
}

impl SetupView {
    /// The nibbles after the next one has been entered: the first nibble of
    /// a configuration clears what was entered before.
    pub open spec fn nibbles_after(self, value: u8) -> Seq<u8> {
        match self.state {
            AppState::Idle => Seq::new(SETUP_NIBBLES as nat, |i: int| 0u8).update(0, value),
            AppState::NewSetup(i) => self.nibbles.update(i as int, value),
        }
    }
}

/// The nibbles of a configuration while they are entered.
pub struct SetupEntry {
    state: AppState,
    nibbles: [u8; 28],
}

impl View for SetupEntry {
    type V = SetupView;

    closed spec fn view(&self) -> SetupView {
        SetupView { state: self.state, nibbles: self.nibbles@ }
    }
}

impl SetupEntry {
    /// The representation invariant: between one and 27 nibbles of a
    /// configuration have been entered, or none is being entered. Every
    /// state of entering that executable code holds satisfies it.
    #[verifier::type_invariant]
    pub closed spec fn wf(&self) -> bool {
        self.state matches AppState::NewSetup(i) ==> 1 <= i <= 27
    }

    /// The state in which no configuration is being entered.
    pub fn new() -> (entry: Self)
        ensures
            entry.wf(),
            entry@.state == AppState::Idle,
            entry@.nibbles == Seq::new(SETUP_NIBBLES as nat, |i: int| 0u8),
    {
        let entry = Self { state: AppState::Idle, nibbles: [0u8; 28] };
        assert(entry@.nibbles =~= Seq::new(SETUP_NIBBLES as nat, |i: int| 0u8));
        entry
    }

    /// Where entering stands.
    pub fn state(&self) -> (state: AppState)
        ensures
            state == self@.state,
    {
        self.state
    }

    /// Gives up the configuration that is being entered.
    pub fn cancel(&mut self)
        ensures
            final(self).wf(),
            final(self)@ == (SetupView { state: AppState::Idle, ..old(self)@ }),
    {
        proof {
            use_type_invariant(&*self);
        }
        self.state = AppState::Idle;
    }

    /// Enters the next nibble. While the configuration is incomplete, the
    /// displays show the group that is being entered and the result is
    /// `None`. The last nibble completes the configuration: the displays go
    /// dark and the result is the configuration that was entered.
    pub fn press(
        &mut self,
        value: u8,
        top_display: &mut TempDisplayState,
        bottom_display: &mut TempDisplayState,
    ) -> (completed: Option<Configuration>)
        ensures
            final(self).wf(),
            final(top_display).wf(),
            final(bottom_display).wf(),
            final(self)@.state == old(self)@.state.spec_incremented(),
            final(self)@.nibbles == old(self)@.nibbles_after(value),
            completed is Some <==> final(self)@.state == AppState::Idle,
            completed matches Some(configuration) ==> {
                &&& configuration == Configuration::spec_from_nibbles(final(self)@.nibbles)
                &&& final(top_display)@ == display_blank(old(top_display)@)
                &&& final(bottom_display)@ == display_blank(old(bottom_display)@)
            },
            final(self)@.state matches AppState::NewSetup(next) ==> {
                let shown = shown_nibbles(
                    final(self)@.nibbles,
                    spec_group_start(next as int),
                    next as int,
                );
                &&& final(top_display)@ == display_with_nibbles(old(top_display)@, shown, 0)
                &&& final(bottom_display)@ == display_with_nibbles(old(bottom_display)@, shown, 3)
            },
    {
        proof {
            use_type_invariant(&*self);
        }
        match self.state {
            AppState::Idle => {
                self.nibbles = [0u8; 28];
                self.nibbles[0] = value;
            },
            AppState::NewSetup(i) => {
                self.nibbles[i] = value;
            },
        }
        assert(self.nibbles@ =~= old(self)@.nibbles_after(value));
        self.state = self.state.incremented();
        match self.state {
            AppState::Idle => {
                let configuration = Configuration::from_nibbles(&self.nibbles);
                top_display.set_digit(0, 0x20, false);
                top_display.set_digit(1, 0x20, false);
                top_display.set_digit(2, 0x20, false);
                bottom_display.set_digit(0, 0x20, false);
                bottom_display.set_digit(1, 0x20, false);
                bottom_display.set_digit(2, 0x20, false);
                Some(configuration)
            },
            AppState::NewSetup(next_nibble_index) => {
                show_nibbles_starting_at(
                    self.nibbles.as_slice(),
                    group_start(next_nibble_index),
                    next_nibble_index,
                    top_display,
                    bottom_display,
                );
                None
            },
        }
    }
}

} // verus!
