//! The CRC-8 checksum of the EnOcean Serial Protocol 3.
//!
//! The checksum is the remainder of the message, read as a polynomial over
//! GF(2) with the most significant bit first, divided by
//! `x^8 + x^2 + x + 1`. The register starts at zero and the result is not
//! inverted.

use vstd::prelude::*;

verus! {

/// The low eight coefficients of the generator polynomial `x^8 + x^2 + x + 1`.
pub const POLYNOMIAL: u8 = 0x07;

/// One step of the division: the register moves up by one bit, and the
/// generator is subtracted when the bit that leaves the register is set.
pub open spec fn shift_bit(register: u8) -> u8 {
    if register & 0x80 != 0 {
        (register << 1) ^ POLYNOMIAL
    } else {
        register << 1
    }
}

/// The register after `count` steps of the division.
pub open spec fn shift_bits(register: u8, count: nat) -> u8
    decreases count,
{
    if count == 0 {
        register
    } else {
        shift_bit(shift_bits(register, (count - 1) as nat))
    }
}

/// The register after one more message byte has been divided.
pub open spec fn crc8_update(register: u8, byte: u8) -> u8 {
    shift_bits(register ^ byte, 8)
}

/// The checksum of a message.
pub open spec fn crc8_of(bytes: Seq<u8>) -> u8
    decreases bytes.len(),
{
    if bytes.len() == 0 {
        0
    } else {
        crc8_update(crc8_of(bytes.drop_last()), bytes.last())
    }
}

proof fn lemma_shift_bit_injective(a: u8, b: u8)
    requires
        shift_bit(a) == shift_bit(b),
    ensures
        a == b,
{
    assert(((if a & 0x80 != 0 { (a << 1) ^ 0x07u8 } else { a << 1 })
        == (if b & 0x80 != 0 { (b << 1) ^ 0x07u8 } else { b << 1 })) ==> a == b) by (bit_vector);
}

proof fn lemma_shift_bits_injective(a: u8, b: u8, count: nat)
    requires
        shift_bits(a, count) == shift_bits(b, count),
    ensures
        a == b,
    decreases count,
{
    if count > 0 {
        lemma_shift_bit_injective(
            shift_bits(a, (count - 1) as nat),
            shift_bits(b, (count - 1) as nat),
        );
        lemma_shift_bits_injective(a, b, (count - 1) as nat);
    }
}

/// Two registers that agree after dividing the same byte agreed before, and
/// two bytes that lead one register to the same value are the same byte.
pub proof fn lemma_update_injective(r1: u8, b1: u8, r2: u8, b2: u8)
    requires
        crc8_update(r1, b1) == crc8_update(r2, b2),
    ensures
        r1 == r2 <==> b1 == b2,
{
    lemma_shift_bits_injective(r1 ^ b1, r2 ^ b2, 8);
    assert(r1 ^ b1 == r2 ^ b2 ==> (r1 == r2 <==> b1 == b2)) by (bit_vector);
}

/// The checksum of the empty message is zero.
pub proof fn lemma_crc8_empty()
    ensures
        crc8_of(Seq::<u8>::empty()) == 0,
{
}

/// The checksum depends on the bytes of the message and on nothing else:
/// equal messages have equal checksums.
pub proof fn lemma_crc8_deterministic(a: Seq<u8>, b: Seq<u8>)
    requires
        a.len() == b.len(),
        forall|i: int| 0 <= i < a.len() ==> a[i] == b[i],
    ensures
        crc8_of(a) == crc8_of(b),
{
    assert(a =~= b);
}

/// A message followed by its own checksum has the checksum zero.
pub proof fn lemma_crc8_residue(message: Seq<u8>)
    ensures
        crc8_of(message.push(crc8_of(message))) == 0,
{
    let c = crc8_of(message);
    assert(message.push(c).drop_last() =~= message);
    assert(c ^ c == 0u8) by (bit_vector);
    lemma_shift_bits_zero(8);
}

proof fn lemma_shift_bits_zero(count: nat)
    ensures
        shift_bits(0, count) == 0,
    decreases count,
{
    if count > 0 {
        lemma_shift_bits_zero((count - 1) as nat);
        assert(0u8 & 0x80 == 0u8) by (bit_vector);
        assert(0u8 << 1 == 0u8) by (bit_vector);
    }
}

/// Changing one byte of a message always changes its checksum.
pub proof fn lemma_crc8_detects_single_byte_change(a: Seq<u8>, b: Seq<u8>, position: int)
    requires
        a.len() == b.len(),
        0 <= position < a.len(),
        a[position] != b[position],
        forall|i: int| 0 <= i < a.len() && i != position ==> a[i] == b[i],
    ensures
        crc8_of(a) != crc8_of(b),
    decreases a.len(),
{
    let a_front = a.drop_last();
    let b_front = b.drop_last();
    if position == a.len() - 1 {
        assert(a_front =~= b_front);
        if crc8_of(a) == crc8_of(b) {
            lemma_update_injective(crc8_of(a_front), a.last(), crc8_of(b_front), b.last());
        }
    } else {
        lemma_crc8_detects_single_byte_change(a_front, b_front, position);
        if crc8_of(a) == crc8_of(b) {
            lemma_update_injective(crc8_of(a_front), a.last(), crc8_of(b_front), b.last());
        }
    }
}

/// The checksum is not the identity on one-byte messages: the message `[1]`
/// has the checksum 7.
pub proof fn lemma_crc8_of_one()
    ensures
        crc8_of(seq![1u8]) == 7,
{
    let m = seq![1u8];
    assert(m.drop_last() =~= Seq::<u8>::empty());
    assert(crc8_of(m.drop_last()) == 0);
    assert(m.last() == 1u8);
    assert({
        let v0 = 0u8 ^ 1u8;
        let v1 = if v0 & 0x80 != 0 { (v0 << 1) ^ 0x07u8 } else { v0 << 1 };
        let v2 = if v1 & 0x80 != 0 { (v1 << 1) ^ 0x07u8 } else { v1 << 1 };
        let v3 = if v2 & 0x80 != 0 { (v2 << 1) ^ 0x07u8 } else { v2 << 1 };
        let v4 = if v3 & 0x80 != 0 { (v3 << 1) ^ 0x07u8 } else { v3 << 1 };
        let v5 = if v4 & 0x80 != 0 { (v4 << 1) ^ 0x07u8 } else { v4 << 1 };
        let v6 = if v5 & 0x80 != 0 { (v5 << 1) ^ 0x07u8 } else { v5 << 1 };
        let v7 = if v6 & 0x80 != 0 { (v6 << 1) ^ 0x07u8 } else { v6 << 1 };
        let v8 = if v7 & 0x80 != 0 { (v7 << 1) ^ 0x07u8 } else { v7 << 1 };
        v8 == 7u8
    }) by (bit_vector);
    lemma_update_value(0, 1, 7);
}

/// One division step written out, for checking a concrete value.
proof fn lemma_update_value(register: u8, byte: u8, expected: u8)
    requires
        ({
            let v0 = register ^ byte;
            let v1 = if v0 & 0x80 != 0 { (v0 << 1) ^ 0x07u8 } else { v0 << 1 };
            let v2 = if v1 & 0x80 != 0 { (v1 << 1) ^ 0x07u8 } else { v1 << 1 };
            let v3 = if v2 & 0x80 != 0 { (v2 << 1) ^ 0x07u8 } else { v2 << 1 };
            let v4 = if v3 & 0x80 != 0 { (v3 << 1) ^ 0x07u8 } else { v3 << 1 };
            let v5 = if v4 & 0x80 != 0 { (v4 << 1) ^ 0x07u8 } else { v4 << 1 };
            let v6 = if v5 & 0x80 != 0 { (v5 << 1) ^ 0x07u8 } else { v5 << 1 };
            let v7 = if v6 & 0x80 != 0 { (v6 << 1) ^ 0x07u8 } else { v6 << 1 };
            let v8 = if v7 & 0x80 != 0 { (v7 << 1) ^ 0x07u8 } else { v7 << 1 };
            v8 == expected
        }),
    ensures
        crc8_update(register, byte) == expected,
{
    reveal_with_fuel(shift_bits, 9);
}

fn update(register: u8, byte: u8) -> (next: u8)
    ensures
        next == crc8_update(register, byte),
{
    let mut value: u8 = register ^ byte;
    let mut steps: u8 = 0;
    while steps < 8
        invariant
            steps <= 8,
            value == shift_bits(register ^ byte, steps as nat),
        decreases 8 - steps,
    {
        if value & 0x80 != 0 {
            value = (value << 1) ^ POLYNOMIAL;
        } else {
            value = value << 1;
        }
        steps = steps + 1;
    }
    value
}

/// Computes the checksum of `bytes`. Every input is accepted, the empty one
/// included.
pub fn crc8(bytes: &[u8]) -> (checksum: u8)
    ensures
        checksum == crc8_of(bytes@),
{
    let mut register: u8 = 0;
    let mut index: usize = 0;
    while index < bytes.len()
        invariant
            index <= bytes.len(),
            register == crc8_of(bytes@.take(index as int)),
        decreases bytes.len() - index,
    {
        assert(bytes@.take(index + 1).drop_last() =~= bytes@.take(index as int));
        register = update(register, bytes[index]);
        index = index + 1;
    }
    assert(bytes@.take(index as int) =~= bytes@);
    register
}

} // verus!
