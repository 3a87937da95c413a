use gta5_script_decompiler::disassembler::opcodes::Opcode;
use gta5_script_decompiler::parser::assembly_parser::{
    add_i16_to_usize, parse_assembly, ParseAssemblyError,
};
use gta5_script_decompiler::parser::instruction::Instruction;

#[test]
fn adds_signed_offsets() {
    assert_eq!(add_i16_to_usize(10, -3), Some(7));
    assert_eq!(add_i16_to_usize(10, 5), Some(15));
    assert_eq!(add_i16_to_usize(2, -3), None);
    assert_eq!(add_i16_to_usize(usize::MAX, 1), None);
}

#[test]
fn decodes_instructions_with_their_ranges() {
    let code = [0u8, 37, 7, 40, 1, 0, 0, 0, 46, 2, 1];
    let decoded = parse_assembly(&code).unwrap();
    assert_eq!(decoded.len(), 4);
    assert_eq!(decoded[0].0, 0..1);
    assert!(matches!(decoded[0].1, Instruction::Nop));
    assert_eq!(decoded[1].0, 1..3);
    assert!(matches!(decoded[1].1, Instruction::PushConstU8(7)));
    assert_eq!(decoded[2].0, 3..8);
    assert!(matches!(decoded[2].1, Instruction::PushConstU32(1)));
    assert_eq!(decoded[3].0, 8..11);
    assert!(matches!(decoded[3].1, Instruction::Leave(2, 1)));
}

#[test]
fn jumps_lead_past_their_operand() {
    let code = [85u8, 2, 0, 0, 0, 0];
    let decoded = parse_assembly(&code).unwrap();
    assert!(matches!(decoded[0].1, Instruction::Jump(7)));
    let code = [85u8, 0xF0, 0xFF];
    assert_eq!(
        parse_assembly(&code).unwrap_err(),
        ParseAssemblyError::InvalidJump { pos: 3, offset: -16 }
    );
}

#[test]
fn decodes_native_calls_enter_and_switch() {
    let code = [44u8, 0b0000_1001, 3, 0];
    let decoded = parse_assembly(&code).unwrap();
    assert!(matches!(
        decoded[0].1,
        Instruction::NativeCall { arg_count: 8, return_count: 1, native_index: 3 }
    ));
    let code = [45u8, 1, 4, 0, 2, b'o', b'k'];
    let decoded = parse_assembly(&code).unwrap();
    assert!(matches!(
        &decoded[0].1,
        Instruction::Enter { paramter_count: 1, var_count: 4, name: Some(n) } if n == "ok"
    ));
    let code = [98u8, 1, 5, 0, 0, 0, 0, 0];
    let decoded = parse_assembly(&code).unwrap();
    assert!(matches!(&decoded[0].1, Instruction::Switch(cases) if cases == &vec![(5, 10)]));
}

#[test]
fn reports_bad_code() {
    assert_eq!(
        parse_assembly(&[200u8]).unwrap_err(),
        ParseAssemblyError::ReadInstructionError { input: 200 }
    );
    assert_eq!(parse_assembly(&[40u8, 1, 2]).unwrap_err(), ParseAssemblyError::ReadError);
    assert_eq!(
        parse_assembly(&[45u8, 0, 0, 0, 1, 0xFF]).unwrap_err(),
        ParseAssemblyError::InvalidFunctionNameError { pos: 6 }
    );
    assert!(parse_assembly(&[]).unwrap().is_empty());
}

#[test]
fn opcodes_round_trip_and_have_sizes() {
    for b in 0u8..131 {
        let op = Opcode::from_u8(b).unwrap();
        assert_eq!(op.code(), b);
    }
    assert!(Opcode::from_u8(131).is_none());
    assert_eq!(Opcode::Nop.size(&[0]), 1);
    assert_eq!(Opcode::PushConstU32.size(&[40]), 5);
    assert_eq!(Opcode::Enter.size(&[45, 0, 0, 0, 3]), 8);
    assert_eq!(Opcode::Switch.size(&[101, 2]), 14);
    assert_eq!(Opcode::GlobalU24.size(&[97]), 4);
}
