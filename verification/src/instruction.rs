//! Operands and instructions, and their rendering as assembler text.

use crate::memory_operand::{MemoryOperand, MemorySize};
use crate::register::Register;
use crate::text::{
    hex_literal, magnitude, magnitude_of, push_hex_literal, push_signed_hex_literal,
    signed_hex_literal,
};
use vstd::prelude::*;

verus! {

/// An operand of an instruction.
#[derive(Debug, Copy, Clone, PartialEq, Eq)]
pub enum Operand {
    /// A register operand.
    Register(Register),
    /// A memory operand.
    Memory(MemoryOperand),
    /// An immediate operand.
    Immediate(i16),
}

/// A decoded instruction. Each instruction family is a variant of its own,
/// and more families may join the one that is decoded today.
#[derive(Debug, Copy, Clone, PartialEq, Eq)]
#[non_exhaustive]
pub enum Instruction {
    /// Copies `src` into `dest`.
    Mov { src: Operand, dest: Operand },
}

/// The base registers inside the brackets: the first, then ` + ` and the
/// second. Nothing is written without a first register.
pub open spec fn registers_text(registers: [Option<Register>; 2]) -> Seq<char> {
    match registers[0] {
        None => Seq::empty(),
        Some(first) => match registers[1] {
            None => first.name_text(),
            Some(second) => first.name_text() + " + "@ + second.name_text(),
        },
    }
}

/// The displacement inside the brackets: a sign set off by spaces and the
/// hexadecimal literal of the absolute value. An absent or zero displacement
/// is not written at all.
pub open spec fn displacement_text(displacement: Option<i16>) -> Seq<char> {
    match displacement {
        None => Seq::empty(),
        Some(d) => if d == 0 {
            Seq::empty()
        } else if d < 0 {
            " - "@ + hex_literal(magnitude(d as int))
        } else {
            " + "@ + hex_literal(magnitude(d as int))
        },
    }
}

/// The bracketed part of a memory operand: the address of a direct operand,
/// else the base registers and the displacement.
pub open spec fn memory_text(m: MemoryOperand) -> Seq<char> {
    match m.address {
        Some(address) => "["@ + hex_literal(address as nat) + "]"@,
        None => "["@ + registers_text(m.registers) + displacement_text(m.displacement) + "]"@,
    }
}

/// The size keyword and a space, where the operand has a size.
pub open spec fn size_text(size: Option<MemorySize>) -> Seq<char> {
    match size {
        None => Seq::empty(),
        Some(s) => s.keyword_text() + " "@,
    }
}

/// The text of an operand. A memory operand is preceded by its size keyword
/// when `sized` is set.
pub open spec fn operand_text(op: Operand, sized: bool) -> Seq<char> {
    match op {
        Operand::Register(r) => r.name_text(),
        Operand::Immediate(v) => signed_hex_literal(v as int),
        Operand::Memory(m) => if sized {
            size_text(m.size) + memory_text(m)
        } else {
            memory_text(m)
        },
    }
}

/// The line of an instruction: `mov`, the destination, a comma, the source.
/// The width of a memory operand is plain when the other operand is a
/// register; only beside another kind of operand does it carry its size.
pub open spec fn instruction_text(inst: Instruction) -> Seq<char> {
    match inst {
        Instruction::Mov { src, dest } => "mov "@ + operand_text(dest, !(src is Register)) + ", "@
            + operand_text(src, !(dest is Register)),
    }
}

/// A zero displacement leaves no trace in the text: the operand reads as it
/// would without a displacement, its base registers alone between the
/// brackets, whether or not its size is written.
pub proof fn lemma_zero_displacement_is_not_written(m: MemoryOperand, sized: bool)
    requires
        m.displacement == Some(0i16),
    ensures
        memory_text(m) == memory_text(MemoryOperand { displacement: None, ..m }),
        operand_text(Operand::Memory(m), sized) == operand_text(
            Operand::Memory(MemoryOperand { displacement: None, ..m }),
            sized,
        ),
        m.address is None ==> memory_text(m) == "["@ + registers_text(m.registers) + "]"@,
{
    assert("["@ + registers_text(m.registers) + Seq::<char>::empty() + "]"@ =~= "["@
        + registers_text(m.registers) + "]"@);
}

/// The text of a based operand with a zero displacement holds no digit `0`,
/// so no literal `0x0` can follow its registers.
pub proof fn lemma_zero_displacement_has_no_zero_digit(m: MemoryOperand)
    requires
        m.displacement == Some(0i16) || m.displacement is None,
        m.address is None,
    ensures
        !memory_text(m).contains('0'),
{
    let text = memory_text(m);
    reveal_strlit("[");
    reveal_strlit("]");
    reveal_strlit(" + ");
    assert forall|i: int| 0 <= i < text.len() implies text[i] != '0' by {
        match m.registers[0] {
            None => {},
            Some(first) => {
                lemma_register_name_has_no_digit(first);
                match m.registers[1] {
                    None => {},
                    Some(second) => {
                        lemma_register_name_has_no_digit(second);
                    },
                }
            },
        }
    }
}

/// No register name holds the digit `0`.
proof fn lemma_register_name_has_no_digit(r: Register)
    ensures
        r.name_text().len() == 2,
        r.name_text()[0] != '0',
        r.name_text()[1] != '0',
{
    reveal_strlit("al");
    reveal_strlit("cl");
    reveal_strlit("dl");
    reveal_strlit("bl");
    reveal_strlit("ah");
    reveal_strlit("ch");
    reveal_strlit("dh");
    reveal_strlit("bh");
    reveal_strlit("ax");
    reveal_strlit("cx");
    reveal_strlit("dx");
    reveal_strlit("bx");
    reveal_strlit("sp");
    reveal_strlit("bp");
    reveal_strlit("si");
    reveal_strlit("di");
}

/// Appends the bracketed part of a memory operand to `out`.
fn push_memory(out: &mut String, m: &MemoryOperand)
    ensures
        final(out)@ == old(out)@ + memory_text(*m),
{
    out.append("[");
    match m.address {
        Some(address) => {
            push_hex_literal(out, address as u64);
        },
        None => {
            if let Some(first) = m.registers[0] {
                out.append(first.name());
                if let Some(second) = m.registers[1] {
                    out.append(" + ");
                    out.append(second.name());
                }
            }
            assert(out@ =~= old(out)@ + "["@ + registers_text(m.registers));
            if let Some(displacement) = m.displacement {
                if displacement != 0 {
                    if displacement < 0 {
                        out.append(" - ");
                    } else {
                        out.append(" + ");
                    }
                    push_hex_literal(out, magnitude_of(displacement) as u64);
                }
            }
            assert(out@ =~= old(out)@ + "["@ + registers_text(m.registers) + displacement_text(
                m.displacement,
            ));
        },
    }
    out.append("]");
    assert(out@ =~= old(out)@ + memory_text(*m));
}

/// Appends an operand to `out`, a memory operand with its size keyword when
/// `sized` is set.
fn push_operand(out: &mut String, op: &Operand, sized: bool)
    ensures
        final(out)@ == old(out)@ + operand_text(*op, sized),
{
    match op {
        Operand::Register(r) => {
            out.append(r.name());
        },
        Operand::Immediate(v) => {
            push_signed_hex_literal(out, *v);
        },
        Operand::Memory(m) => {
            if sized {
                if let Some(size) = m.size {
                    out.append(size.keyword());
                    out.append(" ");
                }
            }
            push_memory(out, m);
            assert(out@ =~= old(out)@ + operand_text(*op, sized));
        },
    }
}

impl Operand {
    /// Whether the operand is a register.
    pub fn is_register(&self) -> (b: bool)
        ensures
            b == (*self is Register),
    {
        match self {
            Operand::Register(_) => true,
            _ => false,
        }
    }

    /// Renders the operand on its own. Nothing beside it tells the width of a
    /// memory operand, so one that has a size carries its keyword.
    pub fn render(&self) -> (s: String)
        ensures
            s@ == operand_text(*self, true),
    {
        let mut out = String::new();
        push_operand(&mut out, self, true);
        out
    }
}

impl Instruction {
    /// Renders the instruction as one line of assembler text, without a line
    /// break.
    pub fn render(&self) -> (s: String)
        ensures
            s@ == instruction_text(*self),
    {
        let mut out = String::new();
        self.push_to(&mut out);
        out
    }

    /// Appends the line of the instruction to `out`.
    pub fn push_to(&self, out: &mut String)
        ensures
            final(out)@ == old(out)@ + instruction_text(*self),
    {
        match self {
            Instruction::Mov { src, dest } => {
                out.append("mov ");
                push_operand(out, dest, !src.is_register());
                out.append(", ");
                push_operand(out, src, !dest.is_register());
                assert(out@ =~= old(out)@ + instruction_text(*self));
            },
        }
    }
}

} // verus!
