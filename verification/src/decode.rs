//! Instruction decoding: a pure, total split of a 16-bit word into its
//! four 4-bit fields and the two derived operands.
use vstd::prelude::*;

verus! {

/// The four nibbles of an instruction word, highest first, with the two
/// derived operands: the 12-bit address literal and the 8-bit immediate.
pub struct Instruction {
    /// High nibble: the operation class.
    pub h: u8,
    /// Second nibble: the first register selector.
    pub x: u8,
    /// Third nibble: the second register selector.
    pub y: u8,
    /// Low nibble: the operation variant.
    pub l: u8,
    /// Low 12 bits: the address literal.
    pub nnn: u16,
    /// Low 8 bits: the immediate byte.
    pub kk: u8,
}

impl Instruction {
    /// Splits a raw 16-bit word into its fields.  The split is lossless and
    /// total: the four nibbles always reassemble to the original word.
    pub fn parse(v: u16) -> (r: Instruction)
        ensures
            r.h == v / 4096,
            r.x == (v / 256) % 16,
            r.y == (v / 16) % 16,
            r.l == v % 16,
            r.nnn == v % 4096,
            r.kk == v % 256,
            r.h * 4096 + r.x * 256 + r.y * 16 + r.l == v,
            r.nnn == (v & 0x0FFF),
            r.kk == (v & 0x00FF) as u8,
            r.h < 16 && r.x < 16 && r.y < 16 && r.l < 16,
    {
        proof {
            assert(((v & 0xF000) >> 12) == v / 4096) by (bit_vector);
            assert(((v & 0x0F00) >> 8) == (v / 256) % 16) by (bit_vector);
            assert(((v & 0x00F0) >> 4) == (v / 16) % 16) by (bit_vector);
            assert((v & 0x000F) == v % 16) by (bit_vector);
            assert((v & 0x0FFF) == v % 4096) by (bit_vector);
            assert((v & 0x00FF) == v % 256) by (bit_vector);
            assert((v / 4096) * 4096 + ((v / 256) % 16) * 256 + ((v / 16) % 16) * 16 + v % 16
                == v) by (bit_vector);
        }
        Instruction {
            h: ((v & 0xF000) >> 12) as u8,
            x: ((v & 0x0F00) >> 8) as u8,
            y: ((v & 0x00F0) >> 4) as u8,
            l: (v & 0x000F) as u8,
            nnn: v & 0x0FFF,
            kk: (v & 0x00FF) as u8,
        }
    }
}

} // verus!
