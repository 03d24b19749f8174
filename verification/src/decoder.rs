//! The instruction decoder: one forward pass over a byte stream.

use crate::error::{DecodeError, DecodeFailure};
use crate::fields::{
    direction_of, fourth_bit, low_bit, mod_field, reg_field, rm_field, second_bit, Mod, Reg, Rm,
    Wide,
};
use crate::instruction::{instruction_text, Instruction, Operand};
use crate::memory_operand::{
    direct_operand, read_word_le, resolve_memory, signed_word, to_signed_word, word_le,
    MemoryOperand,
};
use crate::register::{register_of, Register};
use vstd::prelude::*;

verus! {

/// Opcodes `100010dw`: a move between a register and a register or memory
/// operand.
pub open spec fn is_register_memory_move(b: u8) -> bool {
    0x88 <= b <= 0x8B
}

/// Opcodes `1011wreg`: a move of an immediate into a register.
pub open spec fn is_immediate_to_register(b: u8) -> bool {
    0xB0 <= b <= 0xBF
}

/// Opcodes `1010000w`: a move from memory at an absolute address into the
/// accumulator.
pub open spec fn is_memory_to_accumulator(b: u8) -> bool {
    b == 0xA0 || b == 0xA1
}

/// Opcodes `1010001w`: a move from the accumulator into memory at an
/// absolute address.
pub open spec fn is_accumulator_to_memory(b: u8) -> bool {
    b == 0xA2 || b == 0xA3
}

/// The number of bytes of the literal behind an opcode, which is the
/// immediate of an immediate-to-register move or the address of an
/// accumulator move: two at word width, one at byte width.
pub open spec fn literal_len(wide: bool) -> int {
    if wide {
        2
    } else {
        1
    }
}

/// The value of the literal at `pos`: two bytes in little-endian order at
/// word width, a single byte padded with zeros at byte width.
pub open spec fn literal_at(s: Seq<u8>, pos: int, wide: bool) -> int {
    if wide {
        word_le(s[pos], s[pos + 1])
    } else {
        s[pos] as int
    }
}

/// The operands that a mod-reg-rm byte `b` names, the bytes behind it being
/// those of `s` from `pos`: the register that the REG field selects, then
/// the operand that the MOD and R/M fields select, and the position after
/// the bytes taken. Mode 3 makes the second operand a register and takes no
/// byte; the other modes make it the memory operand that they resolve to.
pub open spec fn mod_reg_rm_operands(b: u8, wide: bool, s: Seq<u8>, pos: int) -> Result<
    (Operand, Operand, int),
    DecodeError,
> {
    let reg = Operand::Register(register_of(reg_field(b), wide));
    if mod_field(b) == 3 {
        Ok((reg, Operand::Register(register_of(rm_field(b), wide)), pos))
    } else {
        match resolve_memory(mod_field(b), rm_field(b), wide, s, pos) {
            Ok((m, next)) => Ok((reg, Operand::Memory(m), next)),
            Err(e) => Err(e),
        }
    }
}

/// The instruction whose first byte is at `pos` in `s`, and the position of
/// the byte after it.
pub open spec fn decode_at(s: Seq<u8>, pos: int) -> Result<(Instruction, int), DecodeError> {
    if pos < 0 || pos >= s.len() {
        Err(DecodeError::TruncatedStream)
    } else if is_register_memory_move(s[pos]) {
        if pos + 1 >= s.len() {
            Err(DecodeError::TruncatedStream)
        } else {
            match mod_reg_rm_operands(s[pos + 1], low_bit(s[pos]) == 1, s, pos + 2) {
                Err(e) => Err(e),
                Ok((reg, rm, next)) => if second_bit(s[pos]) == 1 {
                    Ok((Instruction::Mov { dest: reg, src: rm }, next))
                } else {
                    Ok((Instruction::Mov { dest: rm, src: reg }, next))
                },
            }
        }
    } else if is_immediate_to_register(s[pos]) {
        let wide = fourth_bit(s[pos]) == 1;
        if pos + 1 + literal_len(wide) > s.len() {
            Err(DecodeError::TruncatedStream)
        } else {
            Ok(
                (
                    Instruction::Mov {
                        dest: Operand::Register(register_of(rm_field(s[pos]), wide)),
                        src: Operand::Immediate(
                            signed_word(literal_at(s, pos + 1, wide)) as i16,
                        ),
                    },
                    pos + 1 + literal_len(wide),
                ),
            )
        }
    } else if is_memory_to_accumulator(s[pos]) || is_accumulator_to_memory(s[pos]) {
        let wide = low_bit(s[pos]) == 1;
        if pos + 1 + literal_len(wide) > s.len() {
            Err(DecodeError::TruncatedStream)
        } else {
            let memory = Operand::Memory(
                direct_operand(literal_at(s, pos + 1, wide) as u16, wide),
            );
            let accumulator = Operand::Register(Register::Ax);
            if is_memory_to_accumulator(s[pos]) {
                Ok(
                    (
                        Instruction::Mov { dest: accumulator, src: memory },
                        pos + 1 + literal_len(wide),
                    ),
                )
            } else {
                Ok(
                    (
                        Instruction::Mov { dest: memory, src: accumulator },
                        pos + 1 + literal_len(wide),
                    ),
                )
            }
        }
    } else {
        Err(DecodeError::UnsupportedOpcode(s[pos]))
    }
}

/// The instructions of `s` from `pos` to its end, in stream order, or the
/// first failure with the offset of the instruction that it befell.
pub open spec fn decode_program(s: Seq<u8>, pos: int) -> Result<Seq<Instruction>, DecodeFailure>
    decreases s.len() - pos,
{
    if pos < 0 || pos >= s.len() {
        Ok(Seq::empty())
    } else {
        match decode_at(s, pos) {
            Err(e) => Err(DecodeFailure { error: e, offset: pos as usize }),
            Ok((inst, next)) => match decode_program(s, next) {
                Ok(rest) => Ok(seq![inst] + rest),
                Err(f) => Err(f),
            },
        }
    }
}

/// The lines of a sequence of instructions, each ended by a line break.
pub open spec fn listing_text(program: Seq<Instruction>) -> Seq<char>
    decreases program.len(),
{
    if program.len() == 0 {
        Seq::empty()
    } else {
        listing_text(program.drop_last()) + instruction_text(program.last()) + "\n"@
    }
}

/// The header that declares the operand-width mode, and the blank line after
/// it.
pub open spec fn header_text() -> Seq<char> {
    "bits 16\n\n"@
}

/// The assembler text of a byte stream: the header and one line for each
/// instruction. A failure anywhere leaves no text.
pub open spec fn decode_text(s: Seq<u8>) -> Result<Seq<char>, DecodeFailure> {
    match decode_program(s, 0) {
        Ok(program) => Ok(header_text() + listing_text(program)),
        Err(f) => Err(f),
    }
}

/// A decoded prefix put in front of what the rest of a stream decodes to.
pub open spec fn after(
    done: Seq<Instruction>,
    rest: Result<Seq<Instruction>, DecodeFailure>,
) -> Result<Seq<Instruction>, DecodeFailure> {
    match rest {
        Ok(program) => Ok(done + program),
        Err(f) => Err(f),
    }
}

/// Every instruction takes at least one byte and none beyond the end of the
/// stream.
pub proof fn lemma_decode_at_advances(s: Seq<u8>, pos: int)
    ensures
        decode_at(s, pos) matches Ok((_, next)) ==> pos < next <= s.len(),
{
}

/// Decoding from `pos` is decoding one instruction and then the rest.
pub proof fn lemma_decode_program_step(s: Seq<u8>, pos: int, done: Seq<Instruction>)
    requires
        0 <= pos < s.len(),
    ensures
        match decode_at(s, pos) {
            Ok((inst, next)) => after(done, decode_program(s, pos)) == after(
                done.push(inst),
                decode_program(s, next),
            ),
            Err(e) => after(done, decode_program(s, pos)) == Err::<
                Seq<Instruction>,
                DecodeFailure,
            >(DecodeFailure { error: e, offset: pos as usize }),
        },
{
    lemma_decode_at_advances(s, pos);
    match decode_at(s, pos) {
        Ok((inst, next)) => {
            match decode_program(s, next) {
                Ok(rest) => {
                    assert(done + (seq![inst] + rest) =~= done.push(inst) + rest);
                },
                Err(_) => {},
            }
        },
        Err(_) => {},
    }
}

/// Reads the operands that the mod-reg-rm byte `b` names, taking the
/// displacement or address bytes from `bytes` at `pos`. Returns the register
/// operand of the REG field, the operand of the MOD and R/M fields, and the
/// position after the bytes taken.
pub fn parse_mod_reg_rm_instr(bytes: &[u8], pos: usize, b: u8, w: Wide) -> (r: Result<
    (Operand, Operand, usize),
    DecodeError,
>)
    requires
        w.valid(),
    ensures
        match mod_reg_rm_operands(b, w.0 == 1, bytes@, pos as int) {
            Ok((reg, rm, next)) => r == Ok::<(Operand, Operand, usize), DecodeError>(
                (reg, rm, next as usize),
            ) && pos <= next && (mod_field(b) != 3 ==> next <= bytes@.len()),
            Err(e) => r == Err::<(Operand, Operand, usize), DecodeError>(e),
        },
{
    let rm = Rm::from_byte(b);
    let reg = Reg::from_byte(b);
    let mod_ = Mod::from_byte(b);
    let reg_operand = Operand::Register(Register::from_reg_w(reg, w));
    if mod_.0 == 0b11 {
        let rm_reg = Register::from_reg_w(Reg(rm.0), w);
        Ok((reg_operand, Operand::Register(rm_reg), pos))
    } else {
        match MemoryOperand::resolve(mod_, rm, w, bytes, pos) {
            Ok((mem, next)) => Ok((reg_operand, Operand::Memory(mem), next)),
            Err(e) => Err(e),
        }
    }
}

/// Reads the literal behind an opcode at `pos`: two bytes in little-endian
/// order at word width, one byte padded with zeros at byte width. Fails
/// where the stream ends first.
fn read_literal(bytes: &[u8], pos: usize, w: Wide) -> (r: Result<(u16, usize), DecodeError>)
    requires
        w.valid(),
        pos <= bytes@.len(),
    ensures
        pos + literal_len(w.0 == 1) > bytes@.len() ==> r == Err::<(u16, usize), DecodeError>(
            DecodeError::TruncatedStream,
        ),
        pos + literal_len(w.0 == 1) <= bytes@.len() ==> r == Ok::<(u16, usize), DecodeError>(
            (
                literal_at(bytes@, pos as int, w.0 == 1) as u16,
                (pos + literal_len(w.0 == 1)) as usize,
            ),
        ),
{
    let needed: usize = if w.0 == 1 {
        2
    } else {
        1
    };
    if bytes.len() - pos < needed {
        Err(DecodeError::TruncatedStream)
    } else if w.0 == 1 {
        Ok((read_word_le(bytes[pos], bytes[pos + 1]), pos + 2))
    } else {
        Ok((bytes[pos] as u16, pos + 1))
    }
}

/// Decodes the instruction whose first byte is at `pos`. Returns it and the
/// position of the byte after it.
pub fn decode_instruction(bytes: &[u8], pos: usize) -> (r: Result<
    (Instruction, usize),
    DecodeError,
>)
    ensures
        match decode_at(bytes@, pos as int) {
            Ok((inst, next)) => r == Ok::<(Instruction, usize), DecodeError>(
                (inst, next as usize),
            ) && pos < next <= bytes@.len(),
            Err(e) => r == Err::<(Instruction, usize), DecodeError>(e),
        },
{
    if pos >= bytes.len() {
        return Err(DecodeError::TruncatedStream);
    }
    let b1 = bytes[pos];
    match b1 {
        0b1000_1000..=0b1000_1011 => {
            let w = Wide::from_opcode(b1);
            let d = direction_of(b1);
            if pos + 1 >= bytes.len() {
                return Err(DecodeError::TruncatedStream);
            }
            let b2 = bytes[pos + 1];
            match parse_mod_reg_rm_instr(bytes, pos + 2, b2, w) {
                Err(e) => Err(e),
                Ok((reg, rm, next)) => {
                    if d {
                        Ok((Instruction::Mov { dest: reg, src: rm }, next))
                    } else {
                        Ok((Instruction::Mov { dest: rm, src: reg }, next))
                    }
                },
            }
        },
        0b1011_0000..=0b1011_1111 => {
            let reg = Reg::from_opcode(b1);
            let w = Wide::from_immediate_opcode(b1);
            match read_literal(bytes, pos + 1, w) {
                Err(e) => Err(e),
                Ok((value, next)) => Ok(
                    (
                        Instruction::Mov {
                            dest: Operand::Register(Register::from_reg_w(reg, w)),
                            src: Operand::Immediate(to_signed_word(value)),
                        },
                        next,
                    ),
                ),
            }
        },
        0b1010_0000 | 0b1010_0001 | 0b1010_0010 | 0b1010_0011 => {
            let w = Wide::from_opcode(b1);
            match read_literal(bytes, pos + 1, w) {
                Err(e) => Err(e),
                Ok((address, next)) => {
                    let memory = Operand::Memory(MemoryOperand::direct_address(address, w));
                    let accumulator = Operand::Register(Register::Ax);
                    if b1 == 0b1010_0000 || b1 == 0b1010_0001 {
                        Ok((Instruction::Mov { dest: accumulator, src: memory }, next))
                    } else {
                        Ok((Instruction::Mov { dest: memory, src: accumulator }, next))
                    }
                },
            }
        },
        _ => Err(DecodeError::UnsupportedOpcode(b1)),
    }
}

/// Decodes a whole byte stream into its instructions, in stream order. The
/// first instruction that cannot be decoded fails the whole pass, with the
/// offset of its first byte.
pub fn decode_instructions(bytes: &[u8]) -> (r: Result<Vec<Instruction>, DecodeFailure>)
    ensures
        match decode_program(bytes@, 0) {
            Ok(program) => r is Ok && r.unwrap()@ == program,
            Err(f) => r == Err::<Vec<Instruction>, DecodeFailure>(f),
        },
{
    let mut program: Vec<Instruction> = Vec::new();
    let mut pos: usize = 0;
    while pos < bytes.len()
        invariant
            pos <= bytes@.len(),
            decode_program(bytes@, 0) == after(program@, decode_program(bytes@, pos as int)),
        decreases bytes@.len() - pos,
    {
        proof {
            lemma_decode_program_step(bytes@, pos as int, program@);
        }
        match decode_instruction(bytes, pos) {
            Err(e) => {
                return Err(DecodeFailure { error: e, offset: pos });
            },
            Ok((inst, next)) => {
                program.push(inst);
                pos = next;
            },
        }
    }
    assert(program@ + Seq::<Instruction>::empty() =~= program@);
    Ok(program)
}

/// Renders a sequence of instructions, one to a line.
pub fn render_listing(program: &[Instruction]) -> (s: String)
    ensures
        s@ == listing_text(program@),
{
    let mut out = String::new();
    let mut i: usize = 0;
    assert(program@.take(0) =~= Seq::<Instruction>::empty());
    while i < program.len()
        invariant
            i <= program@.len(),
            out@ == listing_text(program@.take(i as int)),
        decreases program@.len() - i,
    {
        program[i].push_to(&mut out);
        out.append("\n");
        i = i + 1;
        assert(program@.take(i as int).drop_last() =~= program@.take(i as int - 1));
    }
    assert(program@.take(i as int) =~= program@);
    out
}

/// Disassembles a byte stream into assembler text: the header line, a blank
/// line, and one line for each instruction in stream order. The first
/// instruction that cannot be decoded fails the whole pass, with the offset
/// of its first byte, and leaves no text.
pub fn decode(bytes: &[u8]) -> (r: Result<String, DecodeFailure>)
    ensures
        match decode_text(bytes@) {
            Ok(text) => r is Ok && r.unwrap()@ == text,
            Err(f) => r == Err::<String, DecodeFailure>(f),
        },
{
    let mut listing = String::from_str("bits 16\n\n");
    let mut pos: usize = 0;
    let ghost mut done: Seq<Instruction> = Seq::empty();
    while pos < bytes.len()
        invariant
            pos <= bytes@.len(),
            listing@ == header_text() + listing_text(done),
            decode_program(bytes@, 0) == after(done, decode_program(bytes@, pos as int)),
        decreases bytes@.len() - pos,
    {
        proof {
            lemma_decode_program_step(bytes@, pos as int, done);
        }
        match decode_instruction(bytes, pos) {
            Err(e) => {
                return Err(DecodeFailure { error: e, offset: pos });
            },
            Ok((inst, next)) => {
                inst.push_to(&mut listing);
                listing.append("\n");
                proof {
                    assert(done.push(inst).drop_last() =~= done);
                    done = done.push(inst);
                }
                pos = next;
            },
        }
    }
    assert(done + Seq::<Instruction>::empty() =~= done);
    Ok(listing)
}

} // verus!
