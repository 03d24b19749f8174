//! Memory operands and the addressing-mode resolver.

use crate::error::DecodeError;
use crate::fields::{Mod, Rm, Wide};
use crate::register::Register;
use vstd::prelude::*;

verus! {

/// The width of a memory access.
#[derive(Debug, Copy, Clone, PartialEq, Eq)]
pub enum MemorySize {
    Byte,
    Word,
}

impl MemorySize {
    /// The size that an operand width selects.
    pub open spec fn of_width(wide: bool) -> MemorySize {
        if wide {
            MemorySize::Word
        } else {
            MemorySize::Byte
        }
    }

    /// The assembler keyword for the size.
    pub open spec fn keyword_text(self) -> Seq<char> {
        match self {
            MemorySize::Byte => "byte"@,
            MemorySize::Word => "word"@,
        }
    }

    /// The size that a W field selects.
    pub fn from_wide(w: Wide) -> (size: MemorySize)
        requires
            w.valid(),
        ensures
            size == MemorySize::of_width(w.0 == 1),
    {
        if w.0 == 1 {
            MemorySize::Word
        } else {
            MemorySize::Byte
        }
    }

    /// The assembler keyword for the size: `byte` or `word`.
    pub fn keyword(&self) -> (s: &'static str)
        ensures
            s@ == self.keyword_text(),
    {
        match self {
            MemorySize::Byte => "byte",
            MemorySize::Word => "word",
        }
    }
}

/// A memory operand: either an absolute address, or a sum of up to two base
/// registers and a displacement.
#[derive(Debug, Copy, Clone, PartialEq, Eq)]
pub struct MemoryOperand {
    /// Base registers of the address computation, first then second.
    pub registers: [Option<Register>; 2],
    /// Displacement added to the base registers.
    pub displacement: Option<i16>,
    /// Width of the memory access.
    pub size: Option<MemorySize>,
    /// Absolute address of a direct-address operand.
    pub address: Option<u16>,
}

/// The 16-bit value that two bytes spell in little-endian order.
pub open spec fn word_le(lo: u8, hi: u8) -> int {
    lo as int + 256 * (hi as int)
}

/// A 16-bit value read as a two's-complement number.
pub open spec fn signed_word(v: int) -> int {
    if v >= 0x8000 {
        v - 0x1_0000
    } else {
        v
    }
}

/// A byte read as a two's-complement number.
pub open spec fn signed_byte(b: u8) -> int {
    if b >= 0x80 {
        b as int - 0x100
    } else {
        b as int
    }
}

/// The pair of base registers that an R/M code selects.
pub open spec fn base_registers(rm: int) -> [Option<Register>; 2] {
    if rm == 0 {
        [Some(Register::Bx), Some(Register::Si)]
    } else if rm == 1 {
        [Some(Register::Bx), Some(Register::Di)]
    } else if rm == 2 {
        [Some(Register::Bp), Some(Register::Si)]
    } else if rm == 3 {
        [Some(Register::Bp), Some(Register::Di)]
    } else if rm == 4 {
        [Some(Register::Si), None]
    } else if rm == 5 {
        [Some(Register::Di), None]
    } else if rm == 6 {
        [Some(Register::Bp), None]
    } else {
        [Some(Register::Bx), None]
    }
}

/// Whether the mode and R/M code select an absolute address rather than a
/// base register: mode 0 reuses the code of `bp` alone for this.
pub open spec fn is_direct_mode(mode: int, rm: int) -> bool {
    mode == 0 && rm == 6
}

/// The number of bytes that follow the mod-reg-rm byte for a memory operand.
pub open spec fn trailing_len(mode: int, rm: int) -> int {
    if mode == 1 {
        1
    } else if mode == 2 || is_direct_mode(mode, rm) {
        2
    } else {
        0
    }
}

/// The operand at an absolute address.
pub open spec fn direct_operand(addr: u16, wide: bool) -> MemoryOperand {
    MemoryOperand {
        registers: [None, None],
        displacement: None,
        size: Some(MemorySize::of_width(wide)),
        address: Some(addr),
    }
}

/// The operand on the base registers of an R/M code, without displacement.
pub open spec fn based_operand(rm: int, wide: bool) -> MemoryOperand {
    MemoryOperand {
        registers: base_registers(rm),
        displacement: None,
        size: Some(MemorySize::of_width(wide)),
        address: None,
    }
}

/// The memory operand that a mode and R/M code select, read with the bytes
/// of `s` that start at `pos`, and the position after the bytes it took.
/// The stream is truncated when it holds fewer bytes than the mode needs.
pub open spec fn resolve_memory(mode: int, rm: int, wide: bool, s: Seq<u8>, pos: int) -> Result<
    (MemoryOperand, int),
    DecodeError,
> {
    if pos + trailing_len(mode, rm) > s.len() {
        Err(DecodeError::TruncatedStream)
    } else if is_direct_mode(mode, rm) {
        Ok((direct_operand(word_le(s[pos], s[pos + 1]) as u16, wide), pos + 2))
    } else if mode == 1 {
        Ok((based_operand(rm, wide).displaced(signed_byte(s[pos]) as i16), pos + 1))
    } else if mode == 2 {
        Ok(
            (
                based_operand(rm, wide).displaced(
                    signed_word(word_le(s[pos], s[pos + 1])) as i16,
                ),
                pos + 2,
            ),
        )
    } else {
        Ok((based_operand(rm, wide), pos))
    }
}

/// Reads two bytes as a little-endian word.
pub fn read_word_le(lo: u8, hi: u8) -> (v: u16)
    ensures
        v == word_le(lo, hi),
{
    lo as u16 + 256 * (hi as u16)
}

/// Reads a 16-bit value as a two's-complement number.
pub fn to_signed_word(v: u16) -> (r: i16)
    ensures
        r == signed_word(v as int),
{
    if v >= 0x8000 {
        (v as i32 - 0x1_0000) as i16
    } else {
        v as i16
    }
}

/// Extends the sign of a byte into a 16-bit number.
pub fn to_signed_byte(b: u8) -> (r: i16)
    ensures
        r == signed_byte(b),
{
    if b >= 0x80 {
        b as i16 - 0x100
    } else {
        b as i16
    }
}

impl MemoryOperand {
    /// An operand is either direct or based, never both: with an address it
    /// has no base register. The second base register is used only after the
    /// first.
    pub open spec fn wf(self) -> bool {
        &&& self.address is Some ==> self.registers[0] is None && self.registers[1] is None
        &&& self.registers[1] is Some ==> self.registers[0] is Some
    }

    /// This operand with its displacement set.
    pub open spec fn displaced(self, displacement: i16) -> MemoryOperand {
        MemoryOperand { displacement: Some(displacement), ..self }
    }

    /// Makes the operand at an absolute address.
    pub fn direct_address(addr: u16, wide: Wide) -> (m: Self)
        requires
            wide.valid(),
        ensures
            m == direct_operand(addr, wide.0 == 1),
            m.wf(),
    {
        Self {
            registers: [None, None],
            displacement: None,
            size: Some(MemorySize::from_wide(wide)),
            address: Some(addr),
        }
    }

    /// Makes the operand on the base registers that an R/M code selects,
    /// without displacement. The mode must be a memory mode, and not the
    /// combination that stands for an absolute address, which needs the
    /// address bytes: `resolve` takes both from a byte stream.
    pub fn from_mod_rm(mod_: Mod, rm: Rm, w: Wide) -> (r: Result<Self, DecodeError>)
        requires
            mod_.0 < 3,
            rm.valid(),
            w.valid(),
            !is_direct_mode(mod_.0 as int, rm.0 as int),
        ensures
            r == Ok::<Self, DecodeError>(based_operand(rm.0 as int, w.0 == 1)),
            r.unwrap().wf(),
    {
        let registers: [Option<Register>; 2] = match rm.0 {
            0b000 => [Some(Register::Bx), Some(Register::Si)],
            0b001 => [Some(Register::Bx), Some(Register::Di)],
            0b010 => [Some(Register::Bp), Some(Register::Si)],
            0b011 => [Some(Register::Bp), Some(Register::Di)],
            0b100 => [Some(Register::Si), None],
            0b101 => [Some(Register::Di), None],
            0b110 => [Some(Register::Bp), None],
            _ => [Some(Register::Bx), None],
        };
        Ok(
            Self {
                registers,
                size: Some(MemorySize::from_wide(w)),
                address: None,
                displacement: None,
            },
        )
    }

    /// Sets the displacement and returns the updated operand.
    pub fn with_displacement(&mut self, displacement: i16) -> (r: Self)
        ensures
            *final(self) == old(self).displaced(displacement),
            r == *final(self),
            old(self).wf() ==> r.wf(),
    {
        self.displacement = Some(displacement);
        *self
    }

    /// Resolves the memory operand that a mode and R/M code select, taking
    /// the displacement or address bytes that the mode calls for from `bytes`
    /// at `pos`. Returns the operand and the position after those bytes.
    pub fn resolve(mod_: Mod, rm: Rm, w: Wide, bytes: &[u8], pos: usize) -> (r: Result<
        (Self, usize),
        DecodeError,
    >)
        requires
            mod_.0 < 3,
            rm.valid(),
            w.valid(),
        ensures
            match resolve_memory(mod_.0 as int, rm.0 as int, w.0 == 1, bytes@, pos as int) {
                Ok((m, next)) => r == Ok::<(Self, usize), DecodeError>((m, next as usize))
                    && next <= bytes@.len() && m.wf(),
                Err(e) => r == Err::<(Self, usize), DecodeError>(e),
            },
    {
        let needed: usize = if mod_.0 == 1 {
            1
        } else if mod_.0 == 2 || rm.0 == 0b110 {
            2
        } else {
            0
        };
        if pos > bytes.len() || bytes.len() - pos < needed {
            return Err(DecodeError::TruncatedStream);
        }
        if mod_.0 == 0 && rm.0 == 0b110 {
            let address = read_word_le(bytes[pos], bytes[pos + 1]);
            Ok((Self::direct_address(address, w), pos + 2))
        } else {
            let base = Self::from_mod_rm(mod_, rm, w);
            match base {
                Err(e) => Err(e),
                Ok(mut mem) => {
                    if mod_.0 == 1 {
                        let displacement = to_signed_byte(bytes[pos]);
                        Ok((mem.with_displacement(displacement), pos + 1))
                    } else if mod_.0 == 2 {
                        let displacement = to_signed_word(read_word_le(bytes[pos], bytes[pos + 1]));
                        Ok((mem.with_displacement(displacement), pos + 2))
                    } else {
                        Ok((mem, pos))
                    }
                },
            }
        }
    }
}

} // verus!
