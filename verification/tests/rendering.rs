use sim8086::error::{DecodeError, DecodeFailure};
use sim8086::fields::Wide;
use sim8086::instruction::{Instruction, Operand};
use sim8086::memory_operand::{MemoryOperand, MemorySize};
use sim8086::register::Register;
use sim8086::text::{magnitude_of, push_hex_digits, push_hex_literal, push_signed_hex_literal};

fn based(first: Register, second: Option<Register>, displacement: Option<i16>) -> MemoryOperand {
    MemoryOperand { registers: [Some(first), second], displacement, size: None, address: None }
}

#[test]
fn hexadecimal_digits() {
    let digits = |n: u64| {
        let mut s = String::new();
        push_hex_digits(&mut s, n);
        s
    };
    assert_eq!(digits(0), "0");
    assert_eq!(digits(9), "9");
    assert_eq!(digits(10), "a");
    assert_eq!(digits(15), "f");
    assert_eq!(digits(16), "10");
    assert_eq!(digits(0x1387), "1387");
    assert_eq!(digits(0xABCDEF), "abcdef");
    assert_eq!(digits(u64::MAX), "ffffffffffffffff");
    for n in 0u64..5000 {
        assert_eq!(digits(n), format!("{:x}", n));
    }
}

#[test]
fn hexadecimal_literals_keep_what_was_written_before() {
    let mut s = String::from("at ");
    push_hex_literal(&mut s, 0x2a);
    assert_eq!(s, "at 0x2a");
    push_signed_hex_literal(&mut s, -1);
    assert_eq!(s, "at 0x2a-0x1");
}

#[test]
fn signed_literals() {
    let literal = |v: i16| {
        let mut s = String::new();
        push_signed_hex_literal(&mut s, v);
        s
    };
    assert_eq!(literal(0), "0x0");
    assert_eq!(literal(5), "0x5");
    assert_eq!(literal(-5), "-0x5");
    assert_eq!(literal(i16::MAX), "0x7fff");
    assert_eq!(literal(i16::MIN), "-0x8000");
    assert_eq!(magnitude_of(i16::MIN), 0x8000);
    assert_eq!(magnitude_of(-1), 1);
    assert_eq!(magnitude_of(17), 17);
}

#[test]
fn register_and_immediate_operands() {
    assert_eq!(Operand::Register(Register::Bp).render(), "bp");
    assert_eq!(Operand::Register(Register::Ah).render(), "ah");
    assert_eq!(Operand::Immediate(12).render(), "0xc");
    assert_eq!(Operand::Immediate(-12).render(), "-0xc");
    assert_eq!(Operand::Immediate(0).render(), "0x0");
}

#[test]
fn based_memory_operands() {
    assert_eq!(Operand::Memory(based(Register::Bx, None, None)).render(), "[bx]");
    assert_eq!(
        Operand::Memory(based(Register::Bx, Some(Register::Si), None)).render(),
        "[bx + si]"
    );
    assert_eq!(
        Operand::Memory(based(Register::Bp, Some(Register::Di), Some(4))).render(),
        "[bp + di + 0x4]"
    );
    assert_eq!(Operand::Memory(based(Register::Si, None, Some(-300))).render(), "[si - 0x12c]");
    assert_eq!(
        Operand::Memory(based(Register::Di, None, Some(i16::MIN))).render(),
        "[di - 0x8000]"
    );
}

#[test]
fn zero_displacement_is_not_written() {
    assert_eq!(Operand::Memory(based(Register::Bp, None, Some(0))).render(), "[bp]");
    assert_eq!(
        Operand::Memory(based(Register::Bx, Some(Register::Di), Some(0))).render(),
        "[bx + di]"
    );
    for first in [Register::Bx, Register::Bp, Register::Si, Register::Di] {
        let with_zero = Operand::Memory(based(first, None, Some(0))).render();
        let without = Operand::Memory(based(first, None, None)).render();
        assert_eq!(with_zero, without);
        assert!(!with_zero.contains('0'));
    }
}

#[test]
fn direct_address_operands() {
    let m =
        MemoryOperand { registers: [None, None], displacement: None, size: None, address: Some(5) };
    assert_eq!(Operand::Memory(m).render(), "[0x5]");
    assert_eq!(
        Operand::Memory(MemoryOperand::direct_address(3458, Wide(1))).render(),
        "word [0xd82]"
    );
    assert_eq!(Operand::Memory(MemoryOperand::direct_address(0, Wide(0))).render(), "byte [0x0]");
    assert_eq!(
        Operand::Memory(MemoryOperand::direct_address(0xFFFF, Wide(0))).render(),
        "byte [0xffff]"
    );
}

#[test]
fn an_operand_on_its_own_carries_its_size() {
    let mut m = based(Register::Bp, Some(Register::Di), None);
    m.size = Some(MemorySize::Byte);
    assert_eq!(Operand::Memory(m).render(), "byte [bp + di]");
    m.size = Some(MemorySize::Word);
    m.displacement = Some(901);
    assert_eq!(Operand::Memory(m).render(), "word [bp + di + 0x385]");
}

#[test]
fn size_is_written_only_beside_an_operand_that_is_no_register() {
    let mut m = based(Register::Bp, Some(Register::Di), None);
    m.size = Some(MemorySize::Byte);
    let beside_register =
        Instruction::Mov { dest: Operand::Memory(m), src: Operand::Register(Register::Cl) };
    assert_eq!(beside_register.render(), "mov [bp + di], cl");
    let beside_register =
        Instruction::Mov { dest: Operand::Register(Register::Cl), src: Operand::Memory(m) };
    assert_eq!(beside_register.render(), "mov cl, [bp + di]");
    let beside_immediate =
        Instruction::Mov { dest: Operand::Memory(m), src: Operand::Immediate(7) };
    assert_eq!(beside_immediate.render(), "mov byte [bp + di], 0x7");
    let direct = MemoryOperand::direct_address(0x10, Wide(1));
    let beside_immediate =
        Instruction::Mov { dest: Operand::Memory(direct), src: Operand::Immediate(347) };
    assert_eq!(beside_immediate.render(), "mov word [0x10], 0x15b");
    let unsized_memory = based(Register::Bx, None, None);
    let beside_immediate =
        Instruction::Mov { dest: Operand::Memory(unsized_memory), src: Operand::Immediate(1) };
    assert_eq!(beside_immediate.render(), "mov [bx], 0x1");
}

#[test]
fn instruction_line_is_destination_then_source() {
    let inst = Instruction::Mov {
        src: Operand::Register(Register::Bx),
        dest: Operand::Register(Register::Ax),
    };
    assert_eq!(inst.render(), "mov ax, bx");
    let mut out = String::from("; ");
    inst.push_to(&mut out);
    assert_eq!(out, "; mov ax, bx");
}

#[test]
fn error_messages() {
    assert_eq!(DecodeError::UnsupportedOpcode(0xF4).message(), "unsupported opcode 0xf4");
    assert_eq!(DecodeError::UnsupportedOpcode(0).message(), "unsupported opcode 0x0");
    assert_eq!(
        DecodeError::TruncatedStream.message(),
        "truncated stream: the input ends inside an instruction"
    );
    assert_eq!(
        DecodeFailure { error: DecodeError::UnsupportedOpcode(0xC6), offset: 10 }.message(),
        "unsupported opcode 0xc6 at offset 0xa"
    );
    assert_eq!(
        DecodeFailure { error: DecodeError::TruncatedStream, offset: 0 }.message(),
        "truncated stream: the input ends inside an instruction at offset 0x0"
    );
}
