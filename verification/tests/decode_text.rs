use sim8086::decoder::{decode, decode_instructions, render_listing};
use sim8086::error::{DecodeError, DecodeFailure};
use sim8086::fields::Wide;
use sim8086::instruction::{Instruction, Operand};
use sim8086::memory_operand::MemoryOperand;
use sim8086::register::Register;

fn listing(lines: &[&str]) -> String {
    let mut text = String::from("bits 16\n\n");
    for line in lines {
        text.push_str(line);
        text.push('\n');
    }
    text
}

#[test]
fn reg_reg_mov() {
    assert_eq!(decode(&[0x89, 0xD9]), Ok(listing(&["mov cx, bx"])));
    assert_eq!(
        decode_instructions(&[0x89, 0xD9]),
        Ok(vec![Instruction::Mov {
            dest: Operand::Register(Register::Cx),
            src: Operand::Register(Register::Bx),
        }])
    );
}

#[test]
fn empty_stream_is_the_header_alone() {
    assert_eq!(decode(&[]), Ok(String::from("bits 16\n\n")));
    assert_eq!(decode_instructions(&[]), Ok(vec![]));
}

#[test]
fn word_register_move_with_direction_clear() {
    assert_eq!(decode(&[0x89, 0xD8]), Ok(listing(&["mov ax, bx"])));
}

#[test]
fn immediate_to_low_byte_register() {
    assert_eq!(decode(&[0xB0, 0x05]), Ok(listing(&["mov al, 0x5"])));
}

#[test]
fn base_and_index_without_displacement() {
    assert_eq!(decode(&[0x8B, 0x00]), Ok(listing(&["mov ax, [bx + si]"])));
}

#[test]
fn direct_address_into_register() {
    assert_eq!(decode(&[0x8B, 0x2E, 0x05, 0x00]), Ok(listing(&["mov bp, [0x5]"])));
}

#[test]
fn unrecognized_leading_byte_is_unsupported() {
    assert_eq!(
        decode(&[0xF4]),
        Err(DecodeFailure { error: DecodeError::UnsupportedOpcode(0xF4), offset: 0 })
    );
}

#[test]
fn listing_0037_single_register_mov() {
    assert_eq!(decode(&[0x89, 0xD9]), Ok(listing(&["mov cx, bx"])));
}

#[test]
fn listing_0038_single_register_mov() {
    let bytes = [
        0x89, 0xD9, 0x88, 0xE5, 0x89, 0xDA, 0x89, 0xDE, 0x89, 0xFB, 0x88, 0xC8, 0x88, 0xED, 0x89,
        0xC3, 0x89, 0xF3, 0x89, 0xFC, 0x89, 0xC5,
    ];
    assert_eq!(
        decode(&bytes),
        Ok(listing(&[
            "mov cx, bx",
            "mov ch, ah",
            "mov dx, bx",
            "mov si, bx",
            "mov bx, di",
            "mov al, cl",
            "mov ch, ch",
            "mov bx, ax",
            "mov bx, si",
            "mov sp, di",
            "mov bp, ax",
        ]))
    );
}

#[test]
fn listing_0039_single_register_mov() {
    let bytes = [
        0x89, 0xDE, 0x88, 0xC6, 0xB1, 0x0C, 0xB5, 0xF4, 0xB9, 0x0C, 0x00, 0xB9, 0xF4, 0xFF, 0xBA,
        0x6C, 0x0F, 0xBA, 0x94, 0xF0, 0x8A, 0x00, 0x8B, 0x1B, 0x8B, 0x56, 0x00, 0x8A, 0x60, 0x04,
        0x8A, 0x80, 0x87, 0x13, 0x89, 0x09, 0x88, 0x0A, 0x88, 0x6E, 0x00,
    ];
    assert_eq!(
        decode(&bytes),
        Ok(listing(&[
            "mov si, bx",
            "mov dh, al",
            "mov cl, 0xc",
            "mov ch, 0xf4",
            "mov cx, 0xc",
            "mov cx, -0xc",
            "mov dx, 0xf6c",
            "mov dx, -0xf6c",
            "mov al, [bx + si]",
            "mov bx, [bp + di]",
            "mov dx, [bp]",
            "mov ah, [bx + si + 0x4]",
            "mov al, [bx + si + 0x1387]",
            "mov [bx + di], cx",
            "mov [bp + si], cl",
            "mov [bp], ch",
        ]))
    );
}

#[test]
fn listing_0040_single_register_mov() {
    // Signed displacements.
    let signed = [0x8B, 0x41, 0xDB, 0x89, 0x8C, 0xD4, 0xFE, 0x8B, 0x57, 0xE0];
    // Moves of an immediate to memory, which the decoder does not know.
    let explicit_sizes = [0xC6, 0x03, 0x07, 0xC7, 0x85, 0x85, 0x03, 0x5B, 0x01];
    // Direct addresses, then moves between memory and the accumulator.
    let direct = [
        0x8B, 0x2E, 0x05, 0x00, 0x8B, 0x1E, 0x82, 0x0D, 0xA1, 0xFB, 0x09, 0xA1, 0x10, 0x00, 0xA3,
        0xFA, 0x09, 0xA3, 0x0F, 0x00,
    ];

    let mut whole = Vec::new();
    whole.extend_from_slice(&signed);
    whole.extend_from_slice(&explicit_sizes);
    whole.extend_from_slice(&direct);
    assert_eq!(
        decode(&whole),
        Err(DecodeFailure { error: DecodeError::UnsupportedOpcode(0xC6), offset: 10 })
    );

    let mut decoded_forms = Vec::new();
    decoded_forms.extend_from_slice(&signed);
    decoded_forms.extend_from_slice(&direct);
    assert_eq!(
        decode(&decoded_forms),
        Ok(listing(&[
            "mov ax, [bx + di - 0x25]",
            "mov [si - 0x12c], cx",
            "mov dx, [bx - 0x20]",
            "mov bp, [0x5]",
            "mov bx, [0xd82]",
            "mov ax, [0x9fb]",
            "mov ax, [0x10]",
            "mov [0x9fa], ax",
            "mov [0xf], ax",
        ]))
    );
}

#[test]
fn immediate_to_memory_is_outside_the_decoded_forms() {
    let bytes = [0x8B, 0x41, 0xDB, 0x89, 0x8C, 0xD4, 0xFE, 0x8B, 0x57, 0xE0, 0xC6, 0x03, 0x07];
    assert_eq!(
        decode(&bytes),
        Err(DecodeFailure { error: DecodeError::UnsupportedOpcode(0xC6), offset: 10 })
    );
    assert_eq!(
        decode(&[0xC7, 0x85, 0x85, 0x03, 0x5B, 0x01]),
        Err(DecodeFailure { error: DecodeError::UnsupportedOpcode(0xC7), offset: 0 })
    );
}

#[test]
fn segment_register_moves_are_unsupported() {
    assert_eq!(
        decode(&[0x8E, 0xD8]),
        Err(DecodeFailure { error: DecodeError::UnsupportedOpcode(0x8E), offset: 0 })
    );
    assert_eq!(
        decode(&[0x8C, 0xD8]),
        Err(DecodeFailure { error: DecodeError::UnsupportedOpcode(0x8C), offset: 0 })
    );
}

#[test]
fn a_failure_leaves_no_text_and_names_the_offset_of_its_instruction() {
    assert_eq!(
        decode(&[0x89, 0xD9, 0x88, 0xE5, 0x00]),
        Err(DecodeFailure { error: DecodeError::UnsupportedOpcode(0x00), offset: 4 })
    );
    assert_eq!(
        decode(&[0x89, 0xD9, 0x8B, 0x2E, 0x05]),
        Err(DecodeFailure { error: DecodeError::TruncatedStream, offset: 2 })
    );
}

#[test]
fn truncated_streams() {
    let truncated = |offset: usize| {
        Err::<String, DecodeFailure>(DecodeFailure { error: DecodeError::TruncatedStream, offset })
    };
    // No mod-reg-rm byte.
    assert_eq!(decode(&[0x89]), truncated(0));
    // No displacement byte, then half a displacement, then half an address.
    assert_eq!(decode(&[0x8A, 0x60]), truncated(0));
    assert_eq!(decode(&[0x8A, 0x80, 0x87]), truncated(0));
    assert_eq!(decode(&[0x8B, 0x2E, 0x05]), truncated(0));
    // No immediate, then half an immediate.
    assert_eq!(decode(&[0xB1]), truncated(0));
    assert_eq!(decode(&[0xB9, 0x0C]), truncated(0));
    // No address behind an accumulator move, then half an address.
    assert_eq!(decode(&[0xA2]), truncated(0));
    assert_eq!(decode(&[0xA1, 0xFB]), truncated(0));
}

#[test]
fn accumulator_moves() {
    // A word move has two address bytes, a byte move one.
    assert_eq!(decode(&[0xA0, 0x10]), Ok(listing(&["mov ax, [0x10]"])));
    assert_eq!(decode(&[0xA1, 0x10, 0x02]), Ok(listing(&["mov ax, [0x210]"])));
    assert_eq!(decode(&[0xA2, 0xFF]), Ok(listing(&["mov [0xff], ax"])));
    assert_eq!(decode(&[0xA3, 0xFF, 0xFF]), Ok(listing(&["mov [0xffff], ax"])));
    assert_eq!(
        decode_instructions(&[0xA1, 0xFA, 0x09, 0xA2, 0x0F]),
        Ok(vec![
            Instruction::Mov {
                dest: Operand::Register(Register::Ax),
                src: Operand::Memory(MemoryOperand::direct_address(2554, Wide(1))),
            },
            Instruction::Mov {
                dest: Operand::Memory(MemoryOperand::direct_address(15, Wide(0))),
                src: Operand::Register(Register::Ax),
            },
        ])
    );
}

#[test]
fn text_is_the_rendering_of_the_decoded_program() {
    let bytes = [0x8B, 0x41, 0xDB, 0xB9, 0xF4, 0xFF, 0xA3, 0x0F, 0x00];
    let program = decode_instructions(&bytes).unwrap();
    assert_eq!(program.len(), 3);
    let mut text = String::from("bits 16\n\n");
    text.push_str(&render_listing(&program));
    assert_eq!(decode(&bytes), Ok(text));
}

#[test]
fn byte_immediate_is_padded_with_zeros() {
    assert_eq!(
        decode_instructions(&[0xB5, 0xF4]),
        Ok(vec![Instruction::Mov {
            dest: Operand::Register(Register::Ch),
            src: Operand::Immediate(0xF4),
        }])
    );
    assert_eq!(
        decode_instructions(&[0xB5, 0x7F]),
        Ok(vec![Instruction::Mov {
            dest: Operand::Register(Register::Ch),
            src: Operand::Immediate(127),
        }])
    );
}

#[test]
fn word_immediate_is_little_endian_and_signed() {
    assert_eq!(
        decode_instructions(&[0xBA, 0x94, 0xF0]),
        Ok(vec![Instruction::Mov {
            dest: Operand::Register(Register::Dx),
            src: Operand::Immediate(-3948),
        }])
    );
    assert_eq!(
        decode_instructions(&[0xBF, 0x00, 0x80]),
        Ok(vec![Instruction::Mov {
            dest: Operand::Register(Register::Di),
            src: Operand::Immediate(i16::MIN),
        }])
    );
    assert_eq!(decode(&[0xBF, 0x00, 0x80]), Ok(listing(&["mov di, -0x8000"])));
    assert_eq!(decode(&[0xBF, 0xFF, 0x7F]), Ok(listing(&["mov di, 0x7fff"])));
}
