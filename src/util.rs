use vstd::prelude::*;

verus! {

/// Bit `i` of `b`, counting from the most significant bit (`i == 0`) down to
/// the least significant one (`i == 7`).
pub open spec fn msb_bit(b: u8, i: int) -> u8 {
    ((b as int / vstd::arithmetic::power2::pow2((7 - i) as nat) as int) % 2) as u8
}

/// Joins three nibbles into a 12-bit address, `x` being the most significant.
/// Bits of `x` above its low nibble are shifted out of the 16-bit result.
pub fn concat_12(x: u8, y: u8, z: u8) -> (r: u16)
    ensures
        r == ((x as u16) << 8u16) | ((y as u16) << 4u16) | (z as u16),
        x < 16 && y < 16 && z < 16 ==> r == x * 256 + y * 16 + z,
{
    let r = ((x as u16) << 8u16) | ((y as u16) << 4u16) | (z as u16);
    if x < 16 && y < 16 && z < 16 {
        assert(((x as u16) << 8u16) | ((y as u16) << 4u16) | (z as u16) == x * 256 + y * 16 + z)
            by (bit_vector)
            requires
                x < 16,
                y < 16,
                z < 16,
        ;
    }
    r
}

/// Joins two nibbles into a byte, `y` being the high nibble.
/// Bits of `y` above its low nibble are shifted out of the result.
pub fn concat_8(y: u8, z: u8) -> (r: u8)
    ensures
        r == (y << 4u8) | z,
        y < 16 && z < 16 ==> r == y * 16 + z,
{
    let r = (y << 4u8) | z;
    if y < 16 && z < 16 {
        assert((y << 4u8) | z == y * 16 + z) by (bit_vector)
            requires
                y < 16,
                z < 16,
        ;
    }
    r
}

proof fn lemma_bit_shift(b: u8, k: u8)
    requires
        k < 8,
    ensures
        (b >> k) & 1 == msb_bit(b, 7 - k),
{
    vstd::arithmetic::power2::lemma_pow2_pos(k as nat);
    vstd::bits::lemma_u8_shr_is_div(b, k);
    assert((b >> k) & 1 == (b >> k) % 2) by (bit_vector);
}

/// Splits a byte into its eight bits, most significant first; each entry is 0 or 1.
pub fn byte_to_bits(byte: u8) -> (bits: [u8; 8])
    ensures
        forall|i: int| 0 <= i < 8 ==> #[trigger] bits[i] == msb_bit(byte, i),
        forall|i: int| 0 <= i < 8 ==> #[trigger] bits[i] <= 1,
{
    let mut bits: [u8; 8] = [0u8; 8];
    bits[0] = (byte & 0b10000000u8) >> 7u8;
    bits[1] = (byte & 0b01000000u8) >> 6u8;
    bits[2] = (byte & 0b00100000u8) >> 5u8;
    bits[3] = (byte & 0b00010000u8) >> 4u8;
    bits[4] = (byte & 0b00001000u8) >> 3u8;
    bits[5] = (byte & 0b00000100u8) >> 2u8;
    bits[6] = (byte & 0b00000010u8) >> 1u8;
    bits[7] = byte & 0b00000001u8;
    proof {
        assert((byte & 0b10000000u8) >> 7u8 == (byte >> 7u8) & 1) by (bit_vector);
        assert((byte & 0b01000000u8) >> 6u8 == (byte >> 6u8) & 1) by (bit_vector);
        assert((byte & 0b00100000u8) >> 5u8 == (byte >> 5u8) & 1) by (bit_vector);
        assert((byte & 0b00010000u8) >> 4u8 == (byte >> 4u8) & 1) by (bit_vector);
        assert((byte & 0b00001000u8) >> 3u8 == (byte >> 3u8) & 1) by (bit_vector);
        assert((byte & 0b00000100u8) >> 2u8 == (byte >> 2u8) & 1) by (bit_vector);
        assert((byte & 0b00000010u8) >> 1u8 == (byte >> 1u8) & 1) by (bit_vector);
        assert(byte & 0b00000001u8 == (byte >> 0u8) & 1) by (bit_vector);
        assert forall|k: u8| k < 8 implies (byte >> k) & 1 <= 1 by {
            assert((byte >> k) & 1 <= 1) by (bit_vector);
        }
        lemma_bit_shift(byte, 0);
        lemma_bit_shift(byte, 1);
        lemma_bit_shift(byte, 2);
        lemma_bit_shift(byte, 3);
        lemma_bit_shift(byte, 4);
        lemma_bit_shift(byte, 5);
        lemma_bit_shift(byte, 6);
        lemma_bit_shift(byte, 7);
    }
    bits
}

} // verus!
