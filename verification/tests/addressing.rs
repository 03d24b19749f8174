use sim8086::error::DecodeError;
use sim8086::fields::{Mod, Rm, Wide};
use sim8086::memory_operand::{
    read_word_le, to_signed_byte, to_signed_word, MemoryOperand, MemorySize,
};
use sim8086::register::Register;

#[test]
fn base_register_table() {
    let table = [
        [Some(Register::Bx), Some(Register::Si)],
        [Some(Register::Bx), Some(Register::Di)],
        [Some(Register::Bp), Some(Register::Si)],
        [Some(Register::Bp), Some(Register::Di)],
        [Some(Register::Si), None],
        [Some(Register::Di), None],
        [Some(Register::Bp), None],
        [Some(Register::Bx), None],
    ];
    for rm in 0u8..8 {
        let m = MemoryOperand::from_mod_rm(Mod(1), Rm(rm), Wide(1)).unwrap();
        assert_eq!(m.registers, table[rm as usize]);
        assert_eq!(m.displacement, None);
        assert_eq!(m.address, None);
        assert_eq!(m.size, Some(MemorySize::Word));
    }
    let m = MemoryOperand::from_mod_rm(Mod(0), Rm(0), Wide(0)).unwrap();
    assert_eq!(m.size, Some(MemorySize::Byte));
}

#[test]
fn direct_address_operand() {
    let m = MemoryOperand::direct_address(0x1234, Wide(1));
    assert_eq!(
        m,
        MemoryOperand {
            registers: [None, None],
            displacement: None,
            size: Some(MemorySize::Word),
            address: Some(0x1234),
        }
    );
    assert_eq!(MemoryOperand::direct_address(7, Wide(0)).size, Some(MemorySize::Byte));
}

#[test]
fn with_displacement_sets_it_and_returns_the_operand() {
    let mut m = MemoryOperand::from_mod_rm(Mod(1), Rm(7), Wide(1)).unwrap();
    let r = m.with_displacement(-32);
    assert_eq!(m.displacement, Some(-32));
    assert_eq!(r, m);
    assert_eq!(r.registers, [Some(Register::Bx), None]);
    let r = m.with_displacement(5);
    assert_eq!(r.displacement, Some(5));
}

#[test]
fn mode_zero_with_rm_six_is_a_direct_address() {
    for w in 0u8..2 {
        let (m, next) =
            MemoryOperand::resolve(Mod(0), Rm(6), Wide(w), &[0xAA, 0x05, 0x00, 0xBB], 1).unwrap();
        assert_eq!(m.address, Some(5));
        assert_eq!(m.registers, [None, None]);
        assert_eq!(m.displacement, None);
        assert_eq!(next, 3);
    }
    let (m, next) = MemoryOperand::resolve(Mod(0), Rm(6), Wide(1), &[0x82, 0x0D], 0).unwrap();
    assert_eq!(m.address, Some(3458));
    assert_eq!(next, 2);
    assert_eq!(
        MemoryOperand::resolve(Mod(0), Rm(6), Wide(1), &[0x82], 0),
        Err(DecodeError::TruncatedStream)
    );
    assert_eq!(
        MemoryOperand::resolve(Mod(0), Rm(6), Wide(1), &[], 0),
        Err(DecodeError::TruncatedStream)
    );
}

#[test]
fn rm_six_with_a_displacement_is_bp() {
    let (m, next) = MemoryOperand::resolve(Mod(1), Rm(6), Wide(1), &[0x00], 0).unwrap();
    assert_eq!(m.registers, [Some(Register::Bp), None]);
    assert_eq!(m.displacement, Some(0));
    assert_eq!(m.address, None);
    assert_eq!(next, 1);
    let (m, next) = MemoryOperand::resolve(Mod(2), Rm(6), Wide(0), &[0x00, 0x01], 0).unwrap();
    assert_eq!(m.registers, [Some(Register::Bp), None]);
    assert_eq!(m.displacement, Some(256));
    assert_eq!(next, 2);
}

#[test]
fn displacement_bytes_by_mode() {
    let bytes = [0xDB, 0xD4, 0xFE];
    let (m, next) = MemoryOperand::resolve(Mod(0), Rm(1), Wide(1), &bytes, 0).unwrap();
    assert_eq!(m.displacement, None);
    assert_eq!(next, 0);
    let (m, next) = MemoryOperand::resolve(Mod(1), Rm(1), Wide(1), &bytes, 0).unwrap();
    assert_eq!(m.displacement, Some(-37));
    assert_eq!(next, 1);
    let (m, next) = MemoryOperand::resolve(Mod(2), Rm(4), Wide(1), &bytes, 1).unwrap();
    assert_eq!(m.displacement, Some(-300));
    assert_eq!(m.registers, [Some(Register::Si), None]);
    assert_eq!(next, 3);
    assert_eq!(
        MemoryOperand::resolve(Mod(2), Rm(4), Wide(1), &bytes, 2),
        Err(DecodeError::TruncatedStream)
    );
    assert_eq!(
        MemoryOperand::resolve(Mod(1), Rm(4), Wide(1), &bytes, 3),
        Err(DecodeError::TruncatedStream)
    );
    assert_eq!(
        MemoryOperand::resolve(Mod(1), Rm(4), Wide(1), &bytes, 100),
        Err(DecodeError::TruncatedStream)
    );
    // Mode 0 takes nothing, so it resolves at the very end too.
    assert!(MemoryOperand::resolve(Mod(0), Rm(4), Wide(1), &bytes, 3).is_ok());
}

#[test]
fn little_endian_words_and_sign_extension() {
    assert_eq!(read_word_le(0x34, 0x12), 0x1234);
    assert_eq!(read_word_le(0xFF, 0xFF), 0xFFFF);
    assert_eq!(read_word_le(0x00, 0x80), 0x8000);
    assert_eq!(to_signed_word(0x7FFF), 32767);
    assert_eq!(to_signed_word(0x8000), -32768);
    assert_eq!(to_signed_word(0xFFFF), -1);
    assert_eq!(to_signed_word(0xFED4), -300);
    assert_eq!(to_signed_byte(0x7F), 127);
    assert_eq!(to_signed_byte(0x80), -128);
    assert_eq!(to_signed_byte(0xFF), -1);
    assert_eq!(to_signed_byte(0xDB), -37);
    assert_eq!(to_signed_byte(0), 0);
}

#[test]
fn size_keywords() {
    assert_eq!(MemorySize::Byte.keyword(), "byte");
    assert_eq!(MemorySize::Word.keyword(), "word");
    assert_eq!(MemorySize::from_wide(Wide(0)), MemorySize::Byte);
    assert_eq!(MemorySize::from_wide(Wide(1)), MemorySize::Word);
}
