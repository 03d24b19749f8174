//! What holds of every stream that the decoder reads.

use crate::decoder::{
    decode_at, decode_program, is_accumulator_to_memory, is_immediate_to_register,
    is_memory_to_accumulator, is_register_memory_move, lemma_decode_at_advances,
    mod_reg_rm_operands,
};
use crate::error::{DecodeError, DecodeFailure};
use crate::fields::{fourth_bit, low_bit, mod_field, reg_field, rm_field, second_bit};
use crate::instruction::{instruction_text, Instruction, Operand};
use crate::memory_operand::{
    direct_operand, is_direct_mode, resolve_memory, signed_byte, signed_word, trailing_len,
    word_le,
};
use crate::register::{register_of, Register};
use vstd::prelude::*;

verus! {

/// A register-to-register move is two bytes long. With the direction bit set
/// its destination is the register that the REG field names at the width of
/// the W bit and its source the register that the R/M field names at that
/// width; with the direction bit clear the two trade places. The line shows
/// the two register names in that order.
pub proof fn lemma_register_to_register_move(s: Seq<u8>, pos: int)
    requires
        0 <= pos,
        pos + 1 < s.len(),
        is_register_memory_move(s[pos]),
        mod_field(s[pos + 1]) == 3,
    ensures
        ({
            let wide = low_bit(s[pos]) == 1;
            let reg = register_of(reg_field(s[pos + 1]), wide);
            let rm = register_of(rm_field(s[pos + 1]), wide);
            let dest = if second_bit(s[pos]) == 1 {
                reg
            } else {
                rm
            };
            let src = if second_bit(s[pos]) == 1 {
                rm
            } else {
                reg
            };
            let inst = Instruction::Mov {
                dest: Operand::Register(dest),
                src: Operand::Register(src),
            };
            &&& decode_at(s, pos) == Ok::<(Instruction, int), DecodeError>((inst, pos + 2))
            &&& instruction_text(inst) == "mov "@ + dest.name_text() + ", "@ + src.name_text()
        }),
{
}

/// Two register-to-register moves that differ in the direction bit alone
/// decode to the same two operands with destination and source exchanged.
pub proof fn lemma_direction_bit_swaps_operands(s: Seq<u8>, t: Seq<u8>, pos: int)
    requires
        0 <= pos,
        pos + 1 < s.len(),
        pos + 1 < t.len(),
        is_register_memory_move(s[pos]),
        is_register_memory_move(t[pos]),
        low_bit(s[pos]) == low_bit(t[pos]),
        second_bit(s[pos]) != second_bit(t[pos]),
        s[pos + 1] == t[pos + 1],
        mod_field(s[pos + 1]) == 3,
    ensures
        decode_at(s, pos) matches Ok((Instruction::Mov { dest, src }, _)) && decode_at(t, pos)
            == Ok::<(Instruction, int), DecodeError>(
            (Instruction::Mov { dest: src, src: dest }, pos + 2),
        ),
{
    lemma_register_to_register_move(s, pos);
    lemma_register_to_register_move(t, pos);
}

/// An immediate-to-register move names its register in the opcode and is
/// followed by one byte at byte width and by two at word width. The immediate
/// is the little-endian value of those bytes: a word is read as a
/// two's-complement number, a single byte is padded with zeros, which is its
/// sign extension as long as the byte is below `0x80`.
pub proof fn lemma_immediate_to_register_move(s: Seq<u8>, pos: int)
    requires
        0 <= pos < s.len(),
        is_immediate_to_register(s[pos]),
        fourth_bit(s[pos]) == 1 ==> pos + 3 <= s.len(),
        fourth_bit(s[pos]) == 0 ==> pos + 2 <= s.len(),
    ensures
        ({
            let wide = fourth_bit(s[pos]) == 1;
            &&& decode_at(s, pos) matches Ok((Instruction::Mov { dest, src }, next))
            &&& dest == Operand::Register(register_of(rm_field(s[pos]), wide))
            &&& wide ==> next == pos + 3
            &&& !wide ==> next == pos + 2
            &&& src matches Operand::Immediate(v)
            &&& wide ==> v == signed_word(word_le(s[pos + 1], s[pos + 2]))
            &&& !wide ==> v == s[pos + 1]
            &&& !wide && s[pos + 1] < 0x80 ==> v == signed_byte(s[pos + 1])
        }),
{
}

/// An accumulator move pairs `ax` with the operand at an absolute address,
/// as source where the move is from memory and as destination where it is to
/// memory. The address of a word move is the two bytes behind the opcode, low
/// byte first, that of a byte move the one byte behind it.
pub proof fn lemma_accumulator_move(s: Seq<u8>, pos: int)
    requires
        0 <= pos < s.len(),
        is_memory_to_accumulator(s[pos]) || is_accumulator_to_memory(s[pos]),
        low_bit(s[pos]) == 1 ==> pos + 3 <= s.len(),
        low_bit(s[pos]) == 0 ==> pos + 2 <= s.len(),
    ensures
        ({
            let wide = low_bit(s[pos]) == 1;
            let address = if wide {
                word_le(s[pos + 1], s[pos + 2])
            } else {
                s[pos + 1] as int
            };
            let memory = Operand::Memory(direct_operand(address as u16, wide));
            let accumulator = Operand::Register(Register::Ax);
            let next = if wide {
                pos + 3
            } else {
                pos + 2
            };
            &&& is_memory_to_accumulator(s[pos]) ==> decode_at(s, pos) == Ok::<
                (Instruction, int),
                DecodeError,
            >((Instruction::Mov { dest: accumulator, src: memory }, next))
            &&& is_accumulator_to_memory(s[pos]) ==> decode_at(s, pos) == Ok::<
                (Instruction, int),
                DecodeError,
            >((Instruction::Mov { dest: memory, src: accumulator }, next))
        }),
{
}

/// Mode 0 with R/M code 6 never selects `bp`: it resolves to the operand at
/// the absolute address that the next two bytes spell, low byte first, and
/// takes exactly those two bytes. It fails only where the stream ends before
/// them.
pub proof fn lemma_direct_address_mode(b: u8, wide: bool, s: Seq<u8>, pos: int)
    requires
        0 <= pos,
        mod_field(b) == 0,
        rm_field(b) == 6,
    ensures
        pos + 2 <= s.len() ==> mod_reg_rm_operands(b, wide, s, pos) == Ok::<
            (Operand, Operand, int),
            DecodeError,
        >(
            (
                Operand::Register(register_of(reg_field(b), wide)),
                Operand::Memory(direct_operand(word_le(s[pos], s[pos + 1]) as u16, wide)),
                pos + 2,
            ),
        ),
        pos + 2 > s.len() ==> mod_reg_rm_operands(b, wide, s, pos) == Err::<
            (Operand, Operand, int),
            DecodeError,
        >(DecodeError::TruncatedStream),
        pos + 2 <= s.len() ==> (resolve_memory(0, 6, wide, s, pos) matches Ok((m, next)) && {
            &&& m.address == Some(word_le(s[pos], s[pos + 1]) as u16)
            &&& m.registers[0] is None
            &&& m.registers[1] is None
            &&& m.displacement is None
            &&& next == pos + 2
        }),
        pos + 2 > s.len() ==> resolve_memory(0, 6, wide, s, pos) == Err::<
            (crate::memory_operand::MemoryOperand, int),
            DecodeError,
        >(DecodeError::TruncatedStream),
{
}

/// The bytes that follow a mod-reg-rm byte are fixed by its mode: one
/// displacement byte in mode 1, two in mode 2, none in mode 0 unless the R/M
/// code selects an absolute address, which takes two, and none in mode 3.
/// Mode 3 yields a register as second operand, the other modes a memory
/// operand; the first operand is always the register of the REG field.
pub proof fn lemma_mode_fixes_trailing_bytes(b: u8, wide: bool, s: Seq<u8>, pos: int)
    requires
        0 <= pos,
    ensures
        match mod_reg_rm_operands(b, wide, s, pos) {
            Ok((reg, rm, next)) => {
                &&& reg == Operand::Register(register_of(reg_field(b), wide))
                &&& mod_field(b) == 3 ==> next == pos && rm == Operand::Register(
                    register_of(rm_field(b), wide),
                )
                &&& mod_field(b) != 3 ==> rm is Memory && next == pos + trailing_len(
                    mod_field(b),
                    rm_field(b),
                )
                &&& mod_field(b) == 1 ==> next == pos + 1
                &&& mod_field(b) == 2 ==> next == pos + 2
                &&& mod_field(b) == 0 && rm_field(b) != 6 ==> next == pos
                &&& mod_field(b) == 0 && rm_field(b) == 6 ==> next == pos + 2
            },
            Err(e) => {
                &&& e == DecodeError::TruncatedStream
                &&& mod_field(b) != 3
                &&& pos + trailing_len(mod_field(b), rm_field(b)) > s.len()
            },
        },
        is_direct_mode(mod_field(b), rm_field(b)) <==> mod_field(b) == 0 && rm_field(b) == 6,
{
}

/// An instruction is two to four bytes long: the opcode, and a mod-reg-rm
/// byte or a literal, and at most two bytes more.
pub proof fn lemma_instruction_length(s: Seq<u8>, pos: int)
    ensures
        decode_at(s, pos) matches Ok((_, next)) ==> pos + 2 <= next <= pos + 4 && next
            <= s.len(),
{
}

/// Every decoded instruction has a register on at least one side, and a
/// memory operand on the other side is well formed: it is direct or based,
/// never both.
pub proof fn lemma_decoded_operands_are_well_formed(s: Seq<u8>, pos: int)
    ensures
        decode_at(s, pos) matches Ok((Instruction::Mov { dest, src }, _)) ==> {
            &&& dest is Register || src is Register
            &&& dest matches Operand::Memory(m) ==> m.wf() && m.size is Some
            &&& src matches Operand::Memory(m) ==> m.wf() && m.size is Some
            &&& !(dest is Immediate)
        },
{
}

/// Decoding fails with an unsupported opcode exactly where the leading byte
/// belongs to none of the four forms of the move, and then the error names
/// that byte.
pub proof fn lemma_unsupported_opcode(s: Seq<u8>, pos: int)
    requires
        0 <= pos < s.len(),
    ensures
        decode_at(s, pos) is Err && decode_at(s, pos)->Err_0 is UnsupportedOpcode <==> !(0x88
            <= s[pos] <= 0x8B) && !(0xB0 <= s[pos] <= 0xBF) && !(0xA0 <= s[pos] <= 0xA3),
        decode_at(s, pos) is Err && decode_at(s, pos)->Err_0 is UnsupportedOpcode ==> decode_at(
            s,
            pos,
        ) == Err::<(Instruction, int), DecodeError>(DecodeError::UnsupportedOpcode(s[pos])),
{
}

/// An instruction is read from its own bytes alone: a stream that holds the
/// same bytes at the same place decodes to the same instruction there.
pub proof fn lemma_instruction_is_local(s: Seq<u8>, t: Seq<u8>, pos: int)
    requires
        decode_at(s, pos) matches Ok((_, next)) && next <= t.len() && forall|i: int|
            pos <= i < next ==> s[i] == t[i],
    ensures
        decode_at(t, pos) == decode_at(s, pos),
{
    lemma_decode_at_advances(s, pos);
    assert(s[pos] == t[pos]);
    if pos + 1 < s.len() && pos + 1 < decode_at(s, pos)->Ok_0.1 {
        assert(s[pos + 1] == t[pos + 1]);
    }
    if pos + 2 < s.len() && pos + 2 < decode_at(s, pos)->Ok_0.1 {
        assert(s[pos + 2] == t[pos + 2]);
    }
    if pos + 3 < s.len() && pos + 3 < decode_at(s, pos)->Ok_0.1 {
        assert(s[pos + 3] == t[pos + 3]);
    }
}

/// An instruction does not depend on where it stands: with `shift` bytes put
/// before a stream, it decodes to the same instruction `shift` bytes later.
pub proof fn lemma_instruction_shifts(front: Seq<u8>, s: Seq<u8>, pos: int)
    requires
        0 <= pos,
    ensures
        match decode_at(s, pos) {
            Ok((inst, next)) => decode_at(front + s, front.len() + pos) == Ok::<
                (Instruction, int),
                DecodeError,
            >((inst, front.len() + next)),
            Err(e) => decode_at(front + s, front.len() + pos) == Err::<
                (Instruction, int),
                DecodeError,
            >(e),
        },
{
    let t = front + s;
    let k = front.len() as int;
    assert(t.len() == k + s.len());
    assert forall|i: int| 0 <= i < s.len() implies t[k + i] == s[i] by {}
    if pos < s.len() {
        assert(t[k + pos] == s[pos]);
        if pos + 1 < s.len() {
            assert(t[k + pos + 1] == s[pos + 1]);
        }
        if pos + 2 < s.len() {
            assert(t[k + pos + 2] == s[pos + 2]);
        }
        if pos + 3 < s.len() {
            assert(t[k + pos + 3] == s[pos + 3]);
        }
    }
}

/// Bytes that follow a program do not change it: where `s` decodes from
/// `pos` without failure, `s + t` decodes from `pos` to the same instructions
/// followed by what `t` decodes to, and a failure in `t` is found at its
/// offset behind `s`.
pub proof fn lemma_programs_concatenate(s: Seq<u8>, t: Seq<u8>, pos: int)
    requires
        0 <= pos <= s.len(),
        decode_program(s, pos) is Ok,
        s.len() + t.len() <= usize::MAX,
    ensures
        match decode_program(t, 0) {
            Ok(second) => decode_program(s + t, pos) == Ok::<Seq<Instruction>, DecodeFailure>(
                decode_program(s, pos)->Ok_0 + second,
            ),
            Err(f) => decode_program(s + t, pos) == Err::<Seq<Instruction>, DecodeFailure>(
                DecodeFailure { error: f.error, offset: (s.len() + f.offset) as usize },
            ),
        },
    decreases s.len() - pos,
{
    if pos < s.len() {
        lemma_decode_at_advances(s, pos);
        let (inst, next) = decode_at(s, pos)->Ok_0;
        assert forall|i: int| pos <= i < next implies s[i] == (s + t)[i] by {}
        lemma_instruction_is_local(s, s + t, pos);
        lemma_programs_concatenate(s, t, next);
        match decode_program(t, 0) {
            Ok(second) => {
                let first_rest = decode_program(s, next)->Ok_0;
                assert(seq![inst] + (first_rest + second) =~= (seq![inst] + first_rest)
                    + second);
            },
            Err(_) => {},
        }
    } else {
        lemma_shifted_program(s, t, 0);
        assert(Seq::<Instruction>::empty() + decode_program(t, 0)->Ok_0 =~= decode_program(
            t,
            0,
        )->Ok_0);
    }
}

/// A program does not depend on where it stands: behind the bytes `front` it
/// decodes to the same instructions, and fails with the same error at the
/// offset moved by the length of `front`.
pub proof fn lemma_shifted_program(front: Seq<u8>, t: Seq<u8>, pos: int)
    requires
        0 <= pos,
        front.len() + t.len() <= usize::MAX,
    ensures
        match decode_program(t, pos) {
            Ok(program) => decode_program(front + t, front.len() + pos) == Ok::<
                Seq<Instruction>,
                DecodeFailure,
            >(program),
            Err(f) => decode_program(front + t, front.len() + pos) == Err::<
                Seq<Instruction>,
                DecodeFailure,
            >(DecodeFailure { error: f.error, offset: (front.len() + f.offset) as usize }),
        },
    decreases t.len() - pos,
{
    if pos < t.len() {
        lemma_decode_at_advances(t, pos);
        lemma_instruction_shifts(front, t, pos);
        match decode_at(t, pos) {
            Ok((inst, next)) => {
                lemma_shifted_program(front, t, next);
            },
            Err(_) => {},
        }
    }
}

/// The offset of a failure is where the trouble starts: every byte before
/// it belongs to an instruction that decodes, and the instruction at the
/// offset is the one that fails with the error.
pub proof fn lemma_failure_offset(s: Seq<u8>, pos: int)
    requires
        0 <= pos <= s.len(),
        s.len() <= usize::MAX,
    ensures
        decode_program(s, pos) matches Err(f) ==> {
            &&& pos <= f.offset < s.len()
            &&& decode_at(s, f.offset as int) == Err::<(Instruction, int), DecodeError>(f.error)
            &&& decode_program(s.take(f.offset as int), pos) is Ok
        },
    decreases s.len() - pos,
{
    if pos < s.len() {
        lemma_decode_at_advances(s, pos);
        match decode_at(s, pos) {
            Ok((inst, next)) => {
                lemma_failure_offset(s, next);
                match decode_program(s, next) {
                    Err(f) => {
                        let cut = s.take(f.offset as int);
                        assert forall|i: int| pos <= i < next implies s[i] == cut[i] by {}
                        lemma_instruction_is_local(s, cut, pos);
                    },
                    Ok(_) => {},
                }
            },
            Err(e) => {
                assert(s.take(pos).len() == pos);
            },
        }
    }
}

} // verus!
