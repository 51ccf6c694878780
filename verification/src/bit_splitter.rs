//! Splitting a 16-bit instruction word into its sub-fields: nibbles, bytes,
//! and the low 12-bit address field.

use vstd::prelude::*;

verus! {

/// The high byte of a 16-bit word.
pub open spec fn high_byte(value: u16) -> u8 {
    (value >> 8) as u8
}

/// The low byte of a 16-bit word.
pub open spec fn low_byte(value: u16) -> u8 {
    (value & 0xFF) as u8
}

/// The 16-bit word formed by a byte pair, high byte first.
pub open spec fn word_of(high: u8, low: u8) -> u16 {
    ((high as u16) << 8) | (low as u16)
}

/// A structure for easily splitting an opcode into different formats, such as
/// a single `u16`, two `u8`, four 4-bit nibbles or similar.
pub struct BitSplitter(u8, u8);

impl BitSplitter {
    /// The high byte the splitter was built from.
    pub closed spec fn high(&self) -> u8 {
        self.0
    }

    /// The low byte the splitter was built from.
    pub closed spec fn low(&self) -> u8 {
        self.1
    }

    /// The full 16-bit word the splitter was built from.
    pub open spec fn word(&self) -> u16 {
        word_of(self.high(), self.low())
    }

    pub fn from_u16(value: u16) -> (r: BitSplitter)
        ensures
            r.high() == high_byte(value),
            r.low() == low_byte(value),
            r.word() == value,
    {
        let r = BitSplitter((value >> 8) as u8, (value & 0x00FF) as u8);
        proof {
            assert(word_of((value >> 8) as u8, (value & 0xFF) as u8) == value) by (bit_vector);
        }
        r
    }

    pub fn new(left: u8, right: u8) -> (r: BitSplitter)
        ensures
            r.high() == left,
            r.low() == right,
    {
        BitSplitter(left, right)
    }

    /// Left-shift the first u8-component 8 bits, then take bitwise or with the
    /// second component in order to store the components in a u16.
    pub fn as_u16(&self) -> (r: u16)
        ensures
            r == self.word(),
    {
        ((self.0 as u16) << 8) | self.1 as u16
    }

    /// Return the two u8-components as a tuple.
    pub fn as_two_u8(&self) -> (r: (u8, u8))
        ensures
            r.0 == self.high(),
            r.1 == self.low(),
    {
        (self.0, self.1)
    }

    /// Return the four 4-bit nibbles, most significant first.
    pub fn as_four_u8(&self) -> (r: (u8, u8, u8, u8))
        ensures
            r.0 == self.high() >> 4,
            r.1 == self.high() & 0xF,
            r.2 == self.low() >> 4,
            r.3 == self.low() & 0xF,
    {
        let four_last_bits_mask = 0x0F;
        let r = (
            (self.0 >> 4) & four_last_bits_mask,
            self.0 & four_last_bits_mask,
            (self.1 >> 4) & four_last_bits_mask,
            self.1 & four_last_bits_mask,
        );
        proof {
            let h = self.0;
            let l = self.1;
            assert((h >> 4) & 0xF == h >> 4 && (l >> 4) & 0xF == l >> 4) by (bit_vector);
        }
        r
    }

    /// The low 8 bits of the word.
    pub fn last_8_bits(&self) -> (r: u8)
        ensures
            r == self.low(),
    {
        self.1
    }

    /// The low 12 bits of the word: the address field of an opcode.
    pub fn last_12_bits(&self) -> (r: u16)
        ensures
            r == self.word() & 0xFFF,
    {
        self.as_u16() & 0x0FFF
    }

    /// The bits of the word from position `start` (inclusive, counting from
    /// the most significant bit) to position `end` (exclusive), shifted down
    /// to the lowest position. An `end` past the word yields `None`.
    pub fn get(&self, start: usize, end: usize) -> (r: Option<u16>)
        requires
            end > 16 || (0 < end && start < 16),
        ensures
            r == (if end > 16 {
                Option::<u16>::None
            } else {
                Some((self.word() & (0xFFFFu16 >> (start as u16))) >> ((16 - end) as u16))
            }),
    {
        if end > 16 {
            return None;
        }
        let mut value = self.as_u16();
        value &= 0xFFFF >> (start as u16);  // Remove start we don't want
        value >>= (16 - end) as u16;  // Remove end we don't want and shift to lowest position
        Some(value)
    }
}

} // verus!
