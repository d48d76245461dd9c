//! The state of one three-digit seven-segment display and the bytes that
//! its LED driver takes.
//!
//! The driver has 24 channels of 12 bits each, eight per digit. A digit is
//! sent as 12 bytes: four groups of three bytes, each group holding two
//! channels, the first in the upper 12 bits.

use vstd::prelude::*;

verus! {

/// The largest brightness, twelve bits all set.
pub const BRIGHTNESS_MAX: u16 = 0x0FFF;

/// A 12-bit brightness value.
#[derive(Clone, Copy, Debug, Default, PartialEq, Eq, Hash, PartialOrd, Ord)]
pub struct Brightness {
    inner: u16,
}

impl View for Brightness {
    type V = u16;

    closed spec fn view(&self) -> u16 {
        self.inner
    }
}

impl Brightness {
    /// The representation invariant: the value fits into twelve bits. Every
    /// brightness that executable code holds satisfies it.
    #[verifier::type_invariant]
    pub closed spec fn wf(&self) -> bool {
        self.inner <= BRIGHTNESS_MAX
    }

    /// The brightness `inner`, where it fits into twelve bits.
    pub fn new(inner: u16) -> (brightness: Option<Self>)
        ensures
            brightness is Some <==> inner <= BRIGHTNESS_MAX,
            brightness matches Some(b) ==> b.wf() && b@ == inner,
    {
        if inner <= 0x0FFF {
            Some(Self { inner })
        } else {
            None
        }
    }

    /// The value as a number.
    pub fn as_u16(&self) -> (value: u16)
        ensures
            value == self@,
            value <= BRIGHTNESS_MAX,
    {
        proof {
            use_type_invariant(self);
        }
        self.inner
    }

    /// A brightness is determined by its value.
    pub proof fn lemma_view_determines(a: Brightness, b: Brightness)
        requires
            a@ == b@,
        ensures
            a == b,
    {
    }
}

impl Brightness {
    /// The value that holds `inner`.
    pub closed spec fn spec_new(inner: u16) -> Brightness {
        Brightness { inner }
    }

    /// The value made from a number holds that number.
    pub proof fn lemma_spec_new(inner: u16)
        ensures
            Self::spec_new(inner)@ == inner,
            inner <= BRIGHTNESS_MAX ==> Self::spec_new(inner).wf(),
    {
    }
}

impl TryFrom<u16> for Brightness {
    type Error = ();

    fn try_from(value: u16) -> (result: Result<Self, Self::Error>) {
        match Self::new(value) {
            Some(converted) => Ok(converted),
            None => Err(()),
        }
    }
}

impl vstd::std_specs::convert::TryFromSpecImpl<u16> for Brightness {
    open spec fn obeys_try_from_spec() -> bool {
        true
    }

    open spec fn try_from_spec(value: u16) -> Result<Self, Self::Error> {
        if value <= BRIGHTNESS_MAX {
            Ok(Brightness::spec_new(value))
        } else {
            Err(())
        }
    }
}

impl From<Brightness> for u16 {
    fn from(value: Brightness) -> (number: u16) {
        value.as_u16()
    }
}

impl vstd::std_specs::convert::FromSpecImpl<Brightness> for u16 {
    open spec fn obeys_from_spec() -> bool {
        true
    }

    open spec fn from_spec(value: Brightness) -> u16 {
        value@
    }
}

/// The decimal point of a digit.
pub const DECIMAL_POINT: u8 = 0b0000_0001;

/// The middle bar of a digit.
pub const MIDDLE: u8 = 0b0000_0010;

/// The upper left bar of a digit.
pub const TOP_LEFT: u8 = 0b0000_0100;

/// The lower left bar of a digit.
pub const BOTTOM_LEFT: u8 = 0b0000_1000;

/// The bottom bar of a digit.
pub const BOTTOM: u8 = 0b0001_0000;

/// The lower right bar of a digit.
pub const BOTTOM_RIGHT: u8 = 0b0010_0000;

/// The upper right bar of a digit.
pub const TOP_RIGHT: u8 = 0b0100_0000;

/// The top bar of a digit.
pub const TOP: u8 = 0b1000_0000;

/// A set of segments of one digit, one bit for each segment.
#[derive(Clone, Copy, Debug, Default, PartialEq, Eq, Hash, PartialOrd, Ord)]
pub struct SegmentCombo {
    bits: u8,
}

impl View for SegmentCombo {
    type V = u8;

    closed spec fn view(&self) -> u8 {
        self.bits
    }
}

impl SegmentCombo {
    /// No segment.
    pub fn empty() -> (combo: Self)
        ensures
            combo@ == 0,
    {
        Self { bits: 0 }
    }

    /// The segments whose bits are set in `bits`.
    pub fn from_bits_retain(bits: u8) -> (combo: Self)
        ensures
            combo@ == bits,
    {
        Self { bits }
    }

    /// The segments as bits.
    pub fn bits(&self) -> (bits: u8)
        ensures
            bits == self@,
    {
        self.bits
    }

    /// Whether every segment of `other` is in this set.
    pub fn contains(&self, other: SegmentCombo) -> (contained: bool)
        ensures
            contained <==> self@ & other@ == other@,
    {
        self.bits & other.bits == other.bits
    }

    /// The segments of this set together with those of `other`.
    pub fn union(&self, other: SegmentCombo) -> (combo: Self)
        ensures
            combo@ == self@ | other@,
    {
        Self { bits: self.bits | other.bits }
    }

    /// A set of segments is determined by its bits.
    pub proof fn lemma_view_determines(a: SegmentCombo, b: SegmentCombo)
        requires
            a@ == b@,
        ensures
            a == b,
    {
    }
}

/// The segments that show a character. The characters that can be shown are
/// the space, the minus sign, the digits and the letters `A` to `F` in
/// either case; any other character is shown as a space.
pub open spec fn character_segments(ascii: u8) -> u8 {
    if ascii == 0x2D {
        MIDDLE
    } else if ascii == 0x30 {
        TOP | TOP_LEFT | BOTTOM_LEFT | BOTTOM | BOTTOM_RIGHT | TOP_RIGHT
    } else if ascii == 0x31 {
        TOP_RIGHT | BOTTOM_RIGHT
    } else if ascii == 0x32 {
        TOP | TOP_RIGHT | MIDDLE | BOTTOM_LEFT | BOTTOM
    } else if ascii == 0x33 {
        TOP | TOP_RIGHT | MIDDLE | BOTTOM_RIGHT | BOTTOM
    } else if ascii == 0x34 {
        TOP_LEFT | MIDDLE | TOP_RIGHT | BOTTOM_RIGHT
    } else if ascii == 0x35 {
        TOP | TOP_LEFT | MIDDLE | BOTTOM_RIGHT | BOTTOM
    } else if ascii == 0x36 {
        TOP | TOP_LEFT | BOTTOM_LEFT | BOTTOM | BOTTOM_RIGHT | MIDDLE
    } else if ascii == 0x37 {
        TOP_LEFT | TOP | TOP_RIGHT | BOTTOM_RIGHT
    } else if ascii == 0x38 {
        TOP | TOP_LEFT | TOP_RIGHT | MIDDLE | BOTTOM_LEFT | BOTTOM_RIGHT | BOTTOM
    } else if ascii == 0x39 {
        TOP | TOP_LEFT | TOP_RIGHT | MIDDLE | BOTTOM_RIGHT | BOTTOM
    } else if ascii == 0x41 {
        BOTTOM_LEFT | TOP_LEFT | TOP | TOP_RIGHT | BOTTOM_RIGHT | MIDDLE
    } else if ascii == 0x42 || ascii == 0x62 {
        TOP_LEFT | BOTTOM_LEFT | BOTTOM | BOTTOM_RIGHT | MIDDLE
    } else if ascii == 0x43 {
        TOP | TOP_LEFT | BOTTOM_LEFT | BOTTOM
    } else if ascii == 0x44 || ascii == 0x64 {
        TOP_RIGHT | BOTTOM_LEFT | BOTTOM | BOTTOM_RIGHT | MIDDLE
    } else if ascii == 0x45 {
        TOP | TOP_LEFT | MIDDLE | BOTTOM_LEFT | BOTTOM
    } else if ascii == 0x46 || ascii == 0x66 {
        TOP | TOP_LEFT | MIDDLE | BOTTOM_LEFT
    } else if ascii == 0x61 {
        TOP | TOP_RIGHT | MIDDLE | BOTTOM_LEFT | BOTTOM_RIGHT | BOTTOM
    } else if ascii == 0x63 {
        MIDDLE | BOTTOM_LEFT | BOTTOM
    } else if ascii == 0x65 {
        TOP | TOP_LEFT | TOP_RIGHT | MIDDLE | BOTTOM_LEFT | BOTTOM
    } else {
        0
    }
}

/// Looks up the segments that show a character.
pub fn segments_of_character(ascii: u8) -> (combo: SegmentCombo)
    ensures
        combo@ == character_segments(ascii),
{
    let bits: u8 = match ascii {
        0x2D => MIDDLE,
        0x30 => TOP | TOP_LEFT | BOTTOM_LEFT | BOTTOM | BOTTOM_RIGHT | TOP_RIGHT,
        0x31 => TOP_RIGHT | BOTTOM_RIGHT,
        0x32 => TOP | TOP_RIGHT | MIDDLE | BOTTOM_LEFT | BOTTOM,
        0x33 => TOP | TOP_RIGHT | MIDDLE | BOTTOM_RIGHT | BOTTOM,
        0x34 => TOP_LEFT | MIDDLE | TOP_RIGHT | BOTTOM_RIGHT,
        0x35 => TOP | TOP_LEFT | MIDDLE | BOTTOM_RIGHT | BOTTOM,
        0x36 => TOP | TOP_LEFT | BOTTOM_LEFT | BOTTOM | BOTTOM_RIGHT | MIDDLE,
        0x37 => TOP_LEFT | TOP | TOP_RIGHT | BOTTOM_RIGHT,
        0x38 => TOP | TOP_LEFT | TOP_RIGHT | MIDDLE | BOTTOM_LEFT | BOTTOM_RIGHT | BOTTOM,
        0x39 => TOP | TOP_LEFT | TOP_RIGHT | MIDDLE | BOTTOM_RIGHT | BOTTOM,
        0x41 => BOTTOM_LEFT | TOP_LEFT | TOP | TOP_RIGHT | BOTTOM_RIGHT | MIDDLE,
        0x42 | 0x62 => TOP_LEFT | BOTTOM_LEFT | BOTTOM | BOTTOM_RIGHT | MIDDLE,
        0x43 => TOP | TOP_LEFT | BOTTOM_LEFT | BOTTOM,
        0x44 | 0x64 => TOP_RIGHT | BOTTOM_LEFT | BOTTOM | BOTTOM_RIGHT | MIDDLE,
        0x45 => TOP | TOP_LEFT | MIDDLE | BOTTOM_LEFT | BOTTOM,
        0x46 | 0x66 => TOP | TOP_LEFT | MIDDLE | BOTTOM_LEFT,
        0x61 => TOP | TOP_RIGHT | MIDDLE | BOTTOM_LEFT | BOTTOM_RIGHT | BOTTOM,
        0x63 => MIDDLE | BOTTOM_LEFT | BOTTOM,
        0x65 => TOP | TOP_LEFT | TOP_RIGHT | MIDDLE | BOTTOM_LEFT | BOTTOM,
        _ => 0,
    };
    SegmentCombo::from_bits_retain(bits)
}

/// The character that stands for a nibble on the display: a hexadecimal
/// digit, with `b` and `d` in lower case so that they differ from `8` and
/// `0`. Values above fifteen are shown as a space.
pub open spec fn nibble_character(nibble: u8) -> u8 {
    if nibble >= 0x10 {
        0x20
    } else if nibble < 10 {
        (0x30 + nibble) as u8
    } else if nibble == 0x0B {
        0x62
    } else if nibble == 0x0D {
        0x64
    } else {
        (0x41 + nibble - 10) as u8
    }
}

/// The bit of the segment that is wired to channel `element` of a digit.
pub open spec fn element_mask(element: int) -> u8 {
    if element == 0 {
        DECIMAL_POINT
    } else if element == 1 {
        MIDDLE
    } else if element == 2 {
        TOP_LEFT
    } else if element == 3 {
        BOTTOM_LEFT
    } else if element == 4 {
        BOTTOM
    } else if element == 5 {
        BOTTOM_RIGHT
    } else if element == 6 {
        TOP_RIGHT
    } else {
        TOP
    }
}

/// Where a digit of the display stands among the digits of the driver.
pub open spec fn physical_position(reversed_order: bool, position: int) -> int {
    if reversed_order {
        2 - position
    } else {
        position
    }
}

/// What a display state holds.
pub struct DisplayView {
    /// The lit segments of the three digits, in the order of the driver.
    pub segments: Seq<u8>,
    pub brightness: u16,
    pub reversed_order: bool,
}

impl DisplayView {
    /// The value of channel `element` of digit `digit`: the brightness
    /// where the segment is lit, zero where it is dark.
    pub open spec fn channel(self, digit: int, element: int) -> int {
        if self.segments[digit] & element_mask(element) == element_mask(element) {
            self.brightness as int
        } else {
            0
        }
    }

    /// Byte `index` of the 36 bytes that the driver takes.
    pub open spec fn spi_byte(self, index: int) -> int {
        let digit = index / 12;
        let pair = (index % 12) / 3;
        let first = self.channel(digit, 2 * pair);
        let second = self.channel(digit, 2 * pair + 1);
        if index % 3 == 0 {
            first / 16
        } else if index % 3 == 1 {
            (first % 16) * 16 + second / 256
        } else {
            second % 256
        }
    }

    /// The display with the digit at `position` showing `segments`.
    pub open spec fn with_segments(self, position: int, segments: u8) -> DisplayView {
        DisplayView {
            segments: self.segments.update(
                physical_position(self.reversed_order, position),
                segments,
            ),
            ..self
        }
    }

    /// The display with the digit at `position` showing a character, with
    /// or without its decimal point.
    pub open spec fn with_digit(self, position: int, ascii: u8, decimal_point: bool)
        -> DisplayView {
        self.with_segments(
            position,
            character_segments(ascii) | if decimal_point {
                DECIMAL_POINT
            } else {
                0
            },
        )
    }
}

/// The lit segments and the brightness of one display of three digits.
pub struct TempDisplayState {
    lit_segments: [SegmentCombo; 3],
    brightness: Brightness,
    reversed_order: bool,
}

impl View for TempDisplayState {
    type V = DisplayView;

    closed spec fn view(&self) -> DisplayView {
        DisplayView {
            segments: Seq::new(3, |i: int| self.lit_segments@[i]@),
            brightness: self.brightness@,
            reversed_order: self.reversed_order,
        }
    }
}

fn mask_of_element(element: usize) -> (mask: SegmentCombo)
    requires
        element < 8,
    ensures
        mask@ == element_mask(element as int),
{
    let bits: u8 = match element {
        0 => DECIMAL_POINT,
        1 => MIDDLE,
        2 => TOP_LEFT,
        3 => BOTTOM_LEFT,
        4 => BOTTOM,
        5 => BOTTOM_RIGHT,
        6 => TOP_RIGHT,
        _ => TOP,
    };
    SegmentCombo::from_bits_retain(bits)
}

proof fn lemma_pack_pair(first: u32, second: u32)
    requires
        first <= 0x0FFF,
        second <= 0x0FFF,
    ensures
        ((((first << 12) | second) >> 16) & 0xFF) == first / 16,
        ((((first << 12) | second) >> 8) & 0xFF) == (first % 16) * 16 + second / 256,
        (((first << 12) | second) & 0xFF) == second % 256,
{
    assert(first <= 0x0FFF && second <= 0x0FFF ==> ((((first << 12) | second) >> 16) & 0xFF)
        == first / 16) by (bit_vector);
    assert(first <= 0x0FFF && second <= 0x0FFF ==> ((((first << 12) | second) >> 8) & 0xFF) == (
    first % 16) * 16 + second / 256) by (bit_vector);
    assert(first <= 0x0FFF && second <= 0x0FFF ==> (((first << 12) | second) & 0xFF) == second
        % 256) by (bit_vector);
}

impl TempDisplayState {
    /// The representation invariant: the brightness fits into twelve bits.
    /// Every display state that executable code holds satisfies it.
    #[verifier::type_invariant]
    pub closed spec fn wf(&self) -> bool {
        self.brightness.wf()
    }

    /// A display has three digits and a brightness of twelve bits.
    pub proof fn lemma_three_digits(&self)
        requires
            self.wf(),
        ensures
            self@.segments.len() == 3,
            self@.brightness <= BRIGHTNESS_MAX,
    {
    }

    /// A dark display with the lowest brightness above zero. With
    /// `reversed_order` the first digit of the display is the last digit of
    /// the driver.
    pub fn new(reversed_order: bool) -> (display: Self)
        ensures
            display.wf(),
            display@.segments == seq![0u8, 0u8, 0u8],
            display@.brightness == 1,
            display@.reversed_order == reversed_order,
    {
        let display = Self {
            lit_segments: [SegmentCombo::empty(); 3],
            brightness: Brightness { inner: 1 },
            reversed_order,
        };
        assert(display@.segments =~= seq![0u8, 0u8, 0u8]);
        display
    }

    /// Writes the 36 bytes that the driver takes into `spi_bytes`.
    pub fn write_spi_bytes(&self, spi_bytes: &mut [u8])
        requires
            old(spi_bytes)@.len() == 36,
        ensures
            final(spi_bytes)@.len() == 36,
            forall|i: int| 0 <= i < 36 ==> #[trigger] final(spi_bytes)@[i] == self@.spi_byte(i),
    {
        let level: u32 = self.brightness.as_u16() as u32;
        let mut digit: usize = 0;
        while digit < 3
            invariant
                level == self@.brightness,
                level <= 0x0FFF,
                digit <= 3,
                spi_bytes@.len() == 36,
                forall|i: int| 0 <= i < 12 * digit ==> #[trigger] spi_bytes@[i] == self@.spi_byte(i),
            decreases 3 - digit,
        {
            let lit_segment = self.lit_segments[digit];
            assert(lit_segment@ == self@.segments[digit as int]);
            let mut pair: usize = 0;
            while pair < 4
                invariant
                    level == self@.brightness,
                    level <= 0x0FFF,
                    digit < 3,
                    pair <= 4,
                    lit_segment@ == self@.segments[digit as int],
                    spi_bytes@.len() == 36,
                    forall|i: int|
                        0 <= i < 12 * digit + 3 * pair ==> #[trigger] spi_bytes@[i]
                            == self@.spi_byte(i),
                decreases 4 - pair,
            {
                let first: u32 = if lit_segment.contains(mask_of_element(2 * pair)) {
                    level
                } else {
                    0
                };
                let second: u32 = if lit_segment.contains(mask_of_element(2 * pair + 1)) {
                    level
                } else {
                    0
                };
                assert(first == self@.channel(digit as int, 2 * pair));
                assert(second == self@.channel(digit as int, 2 * pair + 1));
                let brightness_pair: u32 = (first << 12) | second;
                proof {
                    lemma_pack_pair(first, second);
                }
                let offset: usize = 12 * digit + 3 * pair;
                spi_bytes[offset] = ((brightness_pair >> 16) & 0xFF) as u8;
                spi_bytes[offset + 1] = ((brightness_pair >> 8) & 0xFF) as u8;
                spi_bytes[offset + 2] = (brightness_pair & 0xFF) as u8;
                assert(spi_bytes@[offset as int] == self@.spi_byte(offset as int));
                assert(spi_bytes@[offset + 1] == self@.spi_byte(offset + 1));
                assert(spi_bytes@[offset + 2] == self@.spi_byte(offset + 2));
                pair = pair + 1;
            }
            digit = digit + 1;
        }
    }

    /// The 36 bytes that the driver takes over SPI.
    pub fn spi_frame(&self) -> (frame: [u8; 36])
        ensures
            forall|i: int| 0 <= i < 36 ==> #[trigger] frame@[i] == self@.spi_byte(i),
    {
        let mut frame = [0u8; 36];
        self.write_spi_bytes(&mut frame);
        frame
    }

    /// The 37 bytes that the I2C-to-SPI bridge takes: the pattern of the
    /// chip selects to drive, then the 36 bytes for the driver. The pattern
    /// names at least one of the three chip selects.
    pub fn i2c_spi_bridge_frame(&self, chip_select_pattern: u8) -> (frame: [u8; 37])
        requires
            0b001 <= chip_select_pattern <= 0b111,
        ensures
            frame@[0] == chip_select_pattern,
            forall|i: int| 0 <= i < 36 ==> #[trigger] frame@[i + 1] == self@.spi_byte(i),
    {
        let spi_bytes = self.spi_frame();
        let mut frame = [0u8; 37];
        frame[0] = chip_select_pattern;
        let mut index: usize = 0;
        while index < 36
            invariant
                index <= 36,
                frame@[0] == chip_select_pattern,
                forall|i: int| 0 <= i < index ==> #[trigger] frame@[i + 1] == spi_bytes@[i],
            decreases 36 - index,
        {
            frame[index + 1] = spi_bytes[index];
            index = index + 1;
        }
        frame
    }

    /// Sets the brightness of every lit segment.
    pub fn set_brightness(&mut self, brightness: Brightness)
        ensures
            final(self).wf(),
            final(self)@ == (DisplayView { brightness: brightness@, ..old(self)@ }),
    {
        proof {
            use_type_invariant(&brightness);
        }
        self.brightness = brightness;
        assert(self@.segments =~= old(self)@.segments);
    }

    /// Lights exactly `segments` on the digit at `position`.
    pub fn set_segments(&mut self, position: usize, segments: SegmentCombo)
        requires
            position < 3,
        ensures
            final(self).wf(),
            final(self)@ == old(self)@.with_segments(position as int, segments@),
    {
        let real_position: usize = if self.reversed_order {
            2 - position
        } else {
            position
        };
        proof {
            use_type_invariant(&*self);
        }
        self.lit_segments[real_position] = segments;
        assert(self@.segments =~= old(self)@.with_segments(position as int, segments@).segments);
    }

    /// Shows a character on the digit at `position`, with or without its
    /// decimal point. A character that cannot be shown leaves the digit
    /// dark.
    pub fn set_digit(&mut self, position: usize, ascii_digit: u8, decimal_point: bool)
        requires
            position < 3,
        ensures
            final(self).wf(),
            final(self)@ == old(self)@.with_digit(position as int, ascii_digit, decimal_point),
    {
        let character = segments_of_character(ascii_digit);
        let decimal_point_segment = if decimal_point {
            SegmentCombo::from_bits_retain(DECIMAL_POINT)
        } else {
            SegmentCombo::empty()
        };
        self.set_segments(position, character.union(decimal_point_segment));
    }

    /// Shows a nibble as a hexadecimal digit on the digit at `position`. A
    /// value above fifteen leaves the digit dark.
    pub fn set_nibble_digit(&mut self, position: usize, nibble: u8, decimal_point: bool)
        requires
            position < 3,
        ensures
            final(self).wf(),
            final(self)@ == old(self)@.with_digit(
                position as int,
                nibble_character(nibble),
                decimal_point,
            ),
    {
        let ascii_digit: u8 = if nibble >= 0x10 {
            0x20
        } else if nibble < 10 {
            0x30 + nibble
        } else if nibble == 0x0B {
            0x62
        } else if nibble == 0x0D {
            0x64
        } else {
            0x41 + (nibble - 10)
        };
        self.set_digit(position, ascii_digit, decimal_point);
    }
}

} // verus!
