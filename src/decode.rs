use vstd::prelude::*;
use crate::model::{category, reg_x, reg_y, byte_kk, addr_nnn, nibble_n};

verus! {

/// The fields of one opcode, as the instruction table reads them.
#[derive(Clone, Copy, Debug, PartialEq, Eq, Structural)]
pub struct Fields {
    /// The top nibble: which family of instruction.
    pub category: u16,
    /// Bits 8 to 11: the first register operand.
    pub x: u16,
    /// Bits 4 to 7: the second register operand.
    pub y: u16,
    /// The low byte: an immediate value or a secondary key.
    pub kk: u8,
    /// The low twelve bits: an address.
    pub nnn: u16,
    /// The low nibble: a count or a secondary key.
    pub n: u16,
}

/// Splits an opcode into its fields. Never fails.
pub fn decode(opcode: u16) -> (f: Fields)
    ensures
        f.category == category(opcode),
        f.x == reg_x(opcode),
        f.y == reg_y(opcode),
        f.kk == byte_kk(opcode),
        f.nnn == addr_nnn(opcode),
        f.n == nibble_n(opcode),
        f.x < 16 && f.y < 16 && f.n < 16 && f.category < 16 && f.nnn < 0x1000,
{
    assert(opcode >> 12u16 == opcode / 0x1000) by (bit_vector);
    assert((opcode & 0x0F00) >> 8u16 == (opcode / 0x100) % 0x10) by (bit_vector);
    assert((opcode & 0x00F0) >> 4u16 == (opcode / 0x10) % 0x10) by (bit_vector);
    assert(opcode & 0x00FF == opcode % 0x100) by (bit_vector);
    assert(opcode & 0x0FFF == opcode % 0x1000) by (bit_vector);
    assert(opcode & 0x000F == opcode % 0x10) by (bit_vector);
    Fields {
        category: opcode >> 12u16,
        x: (opcode & 0x0F00) >> 8u16,
        y: (opcode & 0x00F0) >> 4u16,
        kk: (opcode & 0x00FF) as u8,
        nnn: opcode & 0x0FFF,
        n: opcode & 0x000F,
    }
}

} // verus!
