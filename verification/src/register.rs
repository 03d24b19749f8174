//! The register table: sixteen registers, eight per operand width.

use crate::fields::{Reg, Wide};
use vstd::prelude::*;

verus! {

/// An architectural register.
///
/// The byte-width registers are the low and high halves of `ax`, `cx`, `dx`
/// and `bx`. The word-width registers are those four and the pointer and index
/// registers `sp`, `bp`, `si` and `di`, which have no byte-width halves.
#[derive(Debug, Copy, Clone, PartialEq, Eq)]
pub enum Register {
    Al,
    Cl,
    Dl,
    Bl,
    Ah,
    Ch,
    Dh,
    Bh,
    Ax,
    Cx,
    Dx,
    Bx,
    Sp,
    Bp,
    Si,
    Di,
}

/// The register that a 3-bit code names at the given operand width.
pub open spec fn register_of(code: int, wide: bool) -> Register {
    if wide {
        if code == 0 {
            Register::Ax
        } else if code == 1 {
            Register::Cx
        } else if code == 2 {
            Register::Dx
        } else if code == 3 {
            Register::Bx
        } else if code == 4 {
            Register::Sp
        } else if code == 5 {
            Register::Bp
        } else if code == 6 {
            Register::Si
        } else {
            Register::Di
        }
    } else {
        if code == 0 {
            Register::Al
        } else if code == 1 {
            Register::Cl
        } else if code == 2 {
            Register::Dl
        } else if code == 3 {
            Register::Bl
        } else if code == 4 {
            Register::Ah
        } else if code == 5 {
            Register::Ch
        } else if code == 6 {
            Register::Dh
        } else {
            Register::Bh
        }
    }
}

impl Register {
    /// The 3-bit code under which the encoding names this register.
    pub open spec fn code(self) -> int {
        match self {
            Register::Al | Register::Ax => 0,
            Register::Cl | Register::Cx => 1,
            Register::Dl | Register::Dx => 2,
            Register::Bl | Register::Bx => 3,
            Register::Ah | Register::Sp => 4,
            Register::Ch | Register::Bp => 5,
            Register::Dh | Register::Si => 6,
            Register::Bh | Register::Di => 7,
        }
    }

    /// Whether this is a word-width register.
    pub open spec fn is_wide(self) -> bool {
        match self {
            Register::Ax
            | Register::Cx
            | Register::Dx
            | Register::Bx
            | Register::Sp
            | Register::Bp
            | Register::Si
            | Register::Di => true,
            _ => false,
        }
    }

    /// The canonical lowercase name, as assembler text.
    pub open spec fn name_text(self) -> Seq<char> {
        match self {
            Register::Al => "al"@,
            Register::Cl => "cl"@,
            Register::Dl => "dl"@,
            Register::Bl => "bl"@,
            Register::Ah => "ah"@,
            Register::Ch => "ch"@,
            Register::Dh => "dh"@,
            Register::Bh => "bh"@,
            Register::Ax => "ax"@,
            Register::Cx => "cx"@,
            Register::Dx => "dx"@,
            Register::Bx => "bx"@,
            Register::Sp => "sp"@,
            Register::Bp => "bp"@,
            Register::Si => "si"@,
            Register::Di => "di"@,
        }
    }

    /// Resolves a register code at an operand width.
    pub fn from_reg_w(reg: Reg, w: Wide) -> (r: Register)
        requires
            reg.valid(),
            w.valid(),
        ensures
            r == register_of(reg.0 as int, w.0 == 1),
            r.code() == reg.0,
            r.is_wide() == (w.0 == 1),
    {
        if w.0 == 1 {
            match reg.0 {
                0 => Register::Ax,
                1 => Register::Cx,
                2 => Register::Dx,
                3 => Register::Bx,
                4 => Register::Sp,
                5 => Register::Bp,
                6 => Register::Si,
                _ => Register::Di,
            }
        } else {
            match reg.0 {
                0 => Register::Al,
                1 => Register::Cl,
                2 => Register::Dl,
                3 => Register::Bl,
                4 => Register::Ah,
                5 => Register::Ch,
                6 => Register::Dh,
                _ => Register::Bh,
            }
        }
    }

    /// The canonical lowercase name of the register.
    pub fn name(&self) -> (s: &'static str)
        ensures
            s@ == self.name_text(),
    {
        match self {
            Register::Al => "al",
            Register::Cl => "cl",
            Register::Dl => "dl",
            Register::Bl => "bl",
            Register::Ah => "ah",
            Register::Ch => "ch",
            Register::Dh => "dh",
            Register::Bh => "bh",
            Register::Ax => "ax",
            Register::Cx => "cx",
            Register::Dx => "dx",
            Register::Bx => "bx",
            Register::Sp => "sp",
            Register::Bp => "bp",
            Register::Si => "si",
            Register::Di => "di",
        }
    }
}

/// The register table is one to one: a register determines the code and the
/// width that resolve to it, so the sixteen valid pairs name sixteen distinct
/// registers.
pub proof fn lemma_register_table_injective(code: int, wide: bool)
    requires
        0 <= code < 8,
    ensures
        register_of(code, wide).code() == code,
        register_of(code, wide).is_wide() == wide,
{
}

/// Every register is named by the pair of its own code and width.
pub proof fn lemma_register_table_onto(r: Register)
    ensures
        0 <= r.code() < 8,
        register_of(r.code(), r.is_wide()) == r,
{
}

/// No two registers share a name, and every name is two characters long.
pub proof fn lemma_register_names_distinct(a: Register, b: Register)
    ensures
        a.name_text().len() == 2,
        a.name_text() == b.name_text() ==> a == b,
{
    reveal_strlit("al");
    reveal_strlit("cl");
    reveal_strlit("dl");
    reveal_strlit("bl");
    reveal_strlit("ah");
    reveal_strlit("ch");
    reveal_strlit("dh");
    reveal_strlit("bh");
    reveal_strlit("ax");
    reveal_strlit("cx");
    reveal_strlit("dx");
    reveal_strlit("bx");
    reveal_strlit("sp");
    reveal_strlit("bp");
    reveal_strlit("si");
    reveal_strlit("di");
    if a.name_text() == b.name_text() {
        assert(a.name_text()[0] == b.name_text()[0]);
        assert(a.name_text()[1] == b.name_text()[1]);
    }
}

} // verus!
