//! The opcode decoder: splits a raw 16-bit instruction word, fetched as two
//! bytes (high byte first), into its named operand fields.

use vstd::prelude::*;

verus! {

/// One decoded instruction. Any 16-bit pattern decodes; there is no error
/// case. The fields are the five canonical operand nibble groups plus the
/// top nibble `a`, the primary dispatch key.
pub struct Opcode {
    /// The full 16-bit instruction word.
    pub word: u16,
    /// High nibble of the high byte: the primary dispatch key.
    pub a: u8,
    /// Low nibble of the high byte: a register number.
    pub x: u8,
    /// High nibble of the low byte: a register number.
    pub y: u8,
    /// Low nibble of the low byte.
    pub n: u8,
    /// The whole low byte.
    pub nn: u8,
    /// The low 12 bits: an address.
    pub nnn: u16,
}

/// The decoding of the two fetched bytes, high byte first.
pub open spec fn decode(hi: u8, lo: u8) -> Opcode {
    Opcode {
        word: (hi * 256 + lo) as u16,
        a: (hi / 16) as u8,
        x: (hi % 16) as u8,
        y: (lo / 16) as u8,
        n: (lo % 16) as u8,
        nn: lo,
        nnn: ((hi % 16) * 256 + lo) as u16,
    }
}

impl Opcode {
    /// The ranges that decoding guarantees of the fields, and how they fit
    /// together.
    pub open spec fn valid(self) -> bool {
        &&& self.a < 16
        &&& self.x < 16
        &&& self.y < 16
        &&& self.n < 16
        &&& self.nnn < 0x1000
        &&& self.word == self.a * 0x1000 + self.nnn
        &&& self.nnn == self.x * 0x100 + self.nn
        &&& self.nn == self.y * 16 + self.n
    }

    /// Decode an instruction from its two bytes, high byte first.
    pub fn new(first_byte: u8, second_byte: u8) -> (o: Self)
        ensures
            o == decode(first_byte, second_byte),
            o.valid(),
    {
        let word: u16 = (first_byte as u16) * 256 + (second_byte as u16);
        let x: u8 = first_byte % 16;
        Self {
            word,
            a: first_byte / 16,
            x,
            y: second_byte / 16,
            n: second_byte % 16,
            nn: second_byte,
            nnn: (x as u16) * 256 + (second_byte as u16),
        }
    }
}

} // verus!
