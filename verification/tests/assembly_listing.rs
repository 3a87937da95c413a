use gta5_script_decompiler::disassembler::instruction::{Instruction, InstructionInfo, SwitchCase};
use gta5_script_decompiler::formatters::assembly_formatter::{
    create_byte_string, create_labels, AssemblyFormatter,
};
use gta5_script_decompiler::formatters::text::{
    push_decimal, push_hex_padded, push_repeated, push_signed_decimal,
};

fn info(pos: usize, instruction: Instruction) -> InstructionInfo<'static> {
    InstructionInfo { instruction, pos, bytes: &[] }
}

fn render(bits: u32) -> String {
    f32::from_bits(bits).to_string()
}

#[test]
fn numbers_are_written_in_decimal_and_hexadecimal() {
    let mut s = String::new();
    push_decimal(&mut s, 0);
    s.push(' ');
    push_decimal(&mut s, 18446744073709551615);
    s.push(' ');
    push_signed_decimal(&mut s, -32768);
    s.push(' ');
    push_signed_decimal(&mut s, i64::MIN);
    s.push(' ');
    push_hex_padded(&mut s, 0x2d, 8);
    s.push(' ');
    push_hex_padded(&mut s, 0x123456789, 2);
    push_repeated(&mut s, '.', 3);
    assert_eq!(
        s,
        "0 18446744073709551615 -32768 -9223372036854775808 0000002D 123456789..."
    );
}

#[test]
fn byte_column_fits_all_bytes() {
    assert_eq!(create_byte_string(&[0x2d, 0x00, 0x0a], 4, 3), "2D 00 0A    ");
    assert_eq!(create_byte_string(&[0x2d, 0x00, 0x0a], 0, 3), "");
    assert_eq!(create_byte_string(&[], 2, 0), "      ");
}

#[test]
fn byte_column_marks_bytes_left_out() {
    let code: Vec<u8> = (0..10).collect();
    assert_eq!(create_byte_string(&code, 4, 10), "00 01 02 +7 ");
}

#[test]
fn byte_column_is_cut_when_the_marker_grows() {
    let code: Vec<u8> = (0..13).collect();
    assert_eq!(create_byte_string(&code, 4, 13), "00 01 02 +\u{2026} ");
    assert_eq!(create_byte_string(&[7, 8], 1, 2), " \u{2026} ");
}

#[test]
fn functions_take_their_label_over_jump_targets() {
    let infos = vec![
        info(0, Instruction::Enter { arg_count: 0, frame_size: 2, name: None }),
        info(5, Instruction::Jump { location: 0x10 }),
        info(8, Instruction::FunctionCall { location: 0x10 }),
        info(
            0x10,
            Instruction::Enter { arg_count: 1, frame_size: 3, name: Some("main".to_string()) },
        ),
        info(
            0x15,
            Instruction::Switch {
                cases: vec![
                    SwitchCase { value: 1, location: 0x20 },
                    SwitchCase { value: 2, location: 0x20 },
                ],
            },
        ),
        info(0x1a, Instruction::Enter { arg_count: 0, frame_size: 0, name: None }),
    ];
    let labels = create_labels(&infos);
    assert_eq!(labels.len(), 4);
    assert_eq!(labels[&0], "func_0");
    assert_eq!(labels[&0x10], "main");
    assert_eq!(labels[&0x20], "loc_00000020");
    assert_eq!(labels[&0x1a], "func_2");
}

#[test]
fn listing_shows_labels_operands_and_strings() {
    let strings = b"ab\0hello\0".to_vec();
    let infos = vec![
        info(0, Instruction::Enter { arg_count: 0, frame_size: 2, name: None }),
        info(5, Instruction::PushConstU8 { c1: 3 }),
        info(7, Instruction::String),
        info(8, Instruction::Jump { location: 0x10 }),
        info(0x10, Instruction::PushConstS16 { c1: -2 }),
        info(0x13, Instruction::Leave { parameter_count: 0, return_count: 1 }),
    ];
    let formatter = AssemblyFormatter::new(&infos, true, 0, &strings);
    let listing = formatter.format(&infos, true, render);
    let expected = [
        "00000000 ",
        "00000000 ; ========== F U N C T I O N ==========",
        "00000000 ",
        "00000000 .func_0:",
        "00000000 \tENTER 0 2",
        "00000005 \tPUSH_CONST_U8 3",
        "00000007 \tSTRING ; \"hello\"",
        "00000008 \tJ loc_00000010",
        "00000010 ",
        "00000010 .loc_00000010:",
        "00000010 \tPUSH_CONST_S16 -2",
        "00000013 \tLEAVE 0 1",
    ]
    .join("\n");
    assert_eq!(listing, expected);
}

#[test]
fn listing_without_offsets_or_separators() {
    let strings: Vec<u8> = vec![0xff, 0];
    let bytes: [u8; 2] = [0x25, 0x01];
    let infos = vec![
        InstructionInfo {
            instruction: Instruction::Enter {
                arg_count: 2,
                frame_size: 4,
                name: Some("f".to_string()),
            },
            pos: 0,
            bytes: &bytes,
        },
        info(2, Instruction::PushConstFloat { c1: 0x3f80_0000 }),
        info(
            3,
            Instruction::Switch { cases: vec![SwitchCase { value: 7, location: 9 }] },
        ),
        info(8, Instruction::String),
        info(9, Instruction::Nop),
    ];
    let formatter = AssemblyFormatter::new(&infos, false, 1, &strings);
    let listing = formatter.format(&infos, false, render);
    let expected = [
        "     .f:",
        " \u{2026} \tENTER 2 4 \"f\"",
        "   \tPUSH_CONST_F 1",
        "   \tSWITCH",
        "   \t\tCASE 0x00000007 loc_00000009 ; 7",
        "   \tSTRING ; \"<<ERROR STRING>>\"",
        "   ",
        "   .loc_00000009:",
        "   \tNOP",
    ]
    .join("\n");
    assert_eq!(listing, expected);
}
