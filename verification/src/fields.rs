//! Bit fields of the instruction encoding.
//!
//! Every field is a fixed run of bits inside one byte. The contracts state each
//! field as a quotient and remainder of the byte's value; the code shifts and
//! masks.

use vstd::prelude::*;

verus! {

/// REG field of a mod-reg-rm byte: a 3-bit register code.
#[derive(Debug, Copy, Clone, PartialEq, Eq)]
pub struct Reg(pub u8);

/// W field of an opcode byte: 0 selects byte operands, 1 selects word operands.
#[derive(Debug, Copy, Clone, PartialEq, Eq)]
pub struct Wide(pub u8);

/// R/M field of a mod-reg-rm byte: a 3-bit register or addressing code.
#[derive(Debug, Copy, Clone, PartialEq, Eq)]
pub struct Rm(pub u8);

/// MOD field of a mod-reg-rm byte: the 2-bit addressing-mode class.
#[derive(Debug, Copy, Clone, PartialEq, Eq)]
pub struct Mod(pub u8);

/// Bits 7-6 of a byte.
pub open spec fn mod_field(b: u8) -> int {
    b as int / 64
}

/// Bits 5-3 of a byte.
pub open spec fn reg_field(b: u8) -> int {
    (b as int / 8) % 8
}

/// Bits 2-0 of a byte.
pub open spec fn rm_field(b: u8) -> int {
    b as int % 8
}

/// Bit 0 of a byte.
pub open spec fn low_bit(b: u8) -> int {
    b as int % 2
}

/// Bit 1 of a byte.
pub open spec fn second_bit(b: u8) -> int {
    (b as int / 2) % 2
}

/// Bit 3 of a byte.
pub open spec fn fourth_bit(b: u8) -> int {
    (b as int / 8) % 2
}

impl Mod {
    /// A MOD value fits in two bits.
    pub open spec fn valid(self) -> bool {
        self.0 < 4
    }

    /// Reads the MOD field out of a mod-reg-rm byte.
    pub fn from_byte(b: u8) -> (m: Mod)
        ensures
            m.0 == mod_field(b),
            m.valid(),
    {
        assert(b >> 6 == b / 64) by (bit_vector);
        Mod(b >> 6)
    }
}

impl Reg {
    /// A REG value fits in three bits.
    pub open spec fn valid(self) -> bool {
        self.0 < 8
    }

    /// Reads the REG field out of a mod-reg-rm byte.
    pub fn from_byte(b: u8) -> (r: Reg)
        ensures
            r.0 == reg_field(b),
            r.valid(),
    {
        assert((b >> 3) & 0b111 == (b / 8) % 8) by (bit_vector);
        Reg((b >> 3) & 0b111)
    }

    /// Reads the register code out of the low bits of an opcode byte that
    /// carries its register inline.
    pub fn from_opcode(b: u8) -> (r: Reg)
        ensures
            r.0 == rm_field(b),
            r.valid(),
    {
        assert(b & 0b111 == b % 8) by (bit_vector);
        Reg(b & 0b111)
    }
}

impl Rm {
    /// An R/M value fits in three bits.
    pub open spec fn valid(self) -> bool {
        self.0 < 8
    }

    /// Reads the R/M field out of a mod-reg-rm byte.
    pub fn from_byte(b: u8) -> (r: Rm)
        ensures
            r.0 == rm_field(b),
            r.valid(),
    {
        assert(b & 0b111 == b % 8) by (bit_vector);
        Rm(b & 0b111)
    }
}

impl Wide {
    /// A W value is a single bit.
    pub open spec fn valid(self) -> bool {
        self.0 < 2
    }

    /// Reads the W bit of an opcode byte that keeps it in bit 0.
    pub fn from_opcode(b: u8) -> (w: Wide)
        ensures
            w.0 == low_bit(b),
            w.valid(),
    {
        assert(b & 1 == b % 2) by (bit_vector);
        Wide(b & 1)
    }

    /// Reads the W bit of an immediate-to-register opcode, which keeps it in
    /// bit 3.
    pub fn from_immediate_opcode(b: u8) -> (w: Wide)
        ensures
            w.0 == fourth_bit(b),
            w.valid(),
    {
        assert((b & 0b1000) >> 3 == (b / 8) % 2) by (bit_vector);
        Wide((b & 0b1000) >> 3)
    }
}

/// Reads the direction bit (bit 1) of an opcode byte. When it is set the REG
/// field names the destination, otherwise the source.
pub fn direction_of(b: u8) -> (d: bool)
    ensures
        d == (second_bit(b) == 1),
{
    assert(((b & 0b10) >> 1 == 1) == ((b / 2) % 2 == 1)) by (bit_vector);
    (b & 0b10) >> 1 == 1
}

} // verus!
