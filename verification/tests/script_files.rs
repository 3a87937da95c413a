use gta5_script_decompiler::common::le_bytes::{read_i16, read_u16, read_u24, read_u32, read_u64};
use gta5_script_decompiler::parser::script_header::{ParseScriptHeaderError, ScriptHeader};
use gta5_script_decompiler::parser::util::flatten_table;
use gta5_script_decompiler::script::ysc::ysc_header_parser::{OpcodeVersion, YscHeaderParser};
use gta5_script_decompiler::script::ysc::ysc_header_parser_factory::{
    UnknownMagicError, YscHeaderParserFactory,
};
use gta5_script_decompiler::script::ysc::ysc_parser::{
    parse_ysc, patch_opcodes, rotl_native_hash, ParseYscError,
};
use gta5_script_decompiler::script::{Script, ScriptInfo};

fn put_u32(bytes: &mut Vec<u8>, at: usize, v: u32) {
    bytes[at..at + 4].copy_from_slice(&v.to_le_bytes());
}

/// A PC script: header at 0, one string block, one code block, the name,
/// the code, the strings and the natives.
fn script_bytes(magic: u32, code: &[u8], strings: &[u8], name: &[u8], natives: &[u64]) -> Vec<u8> {
    let string_blocks = if strings.is_empty() { 0 } else { 1 };
    let code_blocks = if code.is_empty() { 0 } else { 1 };
    let mut bytes = vec![0u8; 0x80 + 4 * (string_blocks + code_blocks)];
    let name_at = bytes.len();
    bytes.extend_from_slice(name);
    bytes.push(0);
    let code_at = bytes.len();
    bytes.extend_from_slice(code);
    let strings_at = bytes.len();
    bytes.extend_from_slice(strings);
    let natives_at = bytes.len();
    for n in natives {
        bytes.extend_from_slice(&n.to_le_bytes());
    }
    put_u32(&mut bytes, 0x00, magic);
    put_u32(&mut bytes, 0x18, 7);
    put_u32(&mut bytes, 0x1C, code.len() as u32);
    put_u32(&mut bytes, 0x20, 2);
    put_u32(&mut bytes, 0x24, 5);
    put_u32(&mut bytes, 0x2C, natives.len() as u32);
    put_u32(&mut bytes, 0x40, 0x5000_0000 | natives_at as u32);
    put_u32(&mut bytes, 0x58, 0xABCD);
    put_u32(&mut bytes, 0x60, 0x5000_0000 | name_at as u32);
    put_u32(&mut bytes, 0x70, strings.len() as u32);
    if string_blocks == 1 {
        put_u32(&mut bytes, 0x80, 0x5000_0000 | strings_at as u32);
    }
    if code_blocks == 1 {
        put_u32(&mut bytes, 0x80 + 4 * string_blocks, 0x5000_0000 | code_at as u32);
    }
    bytes
}

#[test]
fn reads_little_endian_values() {
    let bytes = [0x01, 0x02, 0x03, 0x04, 0x05, 0x06, 0x07, 0x08];
    assert_eq!(read_u16(&bytes, 0), Some(0x0201));
    assert_eq!(read_u24(&bytes, 1), Some(0x040302));
    assert_eq!(read_u32(&bytes, 4), Some(0x08070605));
    assert_eq!(read_u64(&bytes, 0), Some(0x0807060504030201));
    assert_eq!(read_u32(&bytes, 5), None);
    assert_eq!(read_i16(&[0xFE, 0xFF], 0), Some(-2));
}

#[test]
fn reads_a_pc_header() {
    let bytes = script_bytes(0x1234_B0B8, &[0, 1, 2], b"s\0", b"main", &[]);
    let header = ScriptHeader::read_pc_header(&bytes).unwrap();
    assert_eq!(header.magic, 0x1234_B0B8);
    assert_eq!(header.code_size, 3);
    assert_eq!(header.globals_version, 7);
    assert_eq!(header.paramter_count, 2);
    assert_eq!(header.statics_count, 5);
    assert_eq!(header.name_hash, 0xABCD);
    assert_eq!(header.string_blocks, 1);
    assert_eq!(header.code_blocks, 1);
    assert_eq!(header.rsc7_offset, None);
    assert_eq!(header.script_name, "main");
    assert_eq!(header.script_name_offset, 0x88);
    assert_eq!(header.code_table_offsets, vec![0x8D]);
    assert_eq!(header.string_table_offsets, vec![0x90]);
}

#[test]
fn a_resource_container_moves_the_header() {
    let inner = script_bytes(0x1234_B0B8, &[0], b"", b"x", &[]);
    let mut bytes = vec![0u8; 0x10];
    bytes[0..4].copy_from_slice(&0x37435352u32.to_le_bytes());
    bytes.extend_from_slice(&inner);
    let header = ScriptHeader::read_pc_header(&bytes).unwrap();
    assert_eq!(header.rsc7_offset, Some(0x10));
    assert_eq!(header.script_name, "x");
    assert_eq!(header.string_table_offsets, Vec::<u32>::new());
    assert_eq!(header.code_table_offsets, vec![0x86 + 0x10]);
}

#[test]
fn a_short_file_has_no_header() {
    assert_eq!(
        ScriptHeader::read_pc_header(&[0u8; 0x40]).unwrap_err(),
        ParseScriptHeaderError::InvalidBinaryFormat
    );
    let mut bytes = script_bytes(0, &[], b"", b"abc", &[]);
    let name_at = 0x80;
    bytes.truncate(name_at + 3);
    assert_eq!(
        ScriptHeader::read_pc_header(&bytes).unwrap_err(),
        ParseScriptHeaderError::InvalidBinaryFormat
    );
}

#[test]
fn an_invalid_name_is_reported() {
    let bytes = script_bytes(0, &[], b"", &[0xC3, 0x28], &[]);
    assert_eq!(
        ScriptHeader::read_pc_header(&bytes).unwrap_err(),
        ParseScriptHeaderError::ScriptNameParseError
    );
}

#[test]
fn flattens_blocks() {
    let bytes: Vec<u8> = (0u8..20).collect();
    assert_eq!(flatten_table(&bytes, 7, &[10, 2], 4), vec![10, 11, 12, 13, 2, 3, 4]);
    assert_eq!(flatten_table(&bytes, 0, &[], 4), Vec::<u8>::new());
}

#[test]
fn picks_the_parser_by_magic() {
    assert_eq!(
        YscHeaderParserFactory::create(&0x0000_B0B8u32.to_le_bytes()).unwrap().opcode_version(),
        OpcodeVersion::B2628
    );
    assert_eq!(
        YscHeaderParserFactory::create(&0xFFFF_2699u32.to_le_bytes()).unwrap().opcode_version(),
        OpcodeVersion::B2699
    );
    assert_eq!(
        YscHeaderParserFactory::create(&0x0001_B3A8u32.to_le_bytes()).unwrap().opcode_version(),
        OpcodeVersion::B2802
    );
    assert_eq!(
        YscHeaderParserFactory::create(&0x1234_5678u32.to_le_bytes()).unwrap_err(),
        UnknownMagicError { magic: 0x1234_5678 }
    );
}

#[test]
fn rotates_native_hashes() {
    assert_eq!(rotl_native_hash(1, 3), 8);
    assert_eq!(rotl_native_hash(0x8000_0000_0000_0000, 1), 1);
    assert_eq!(rotl_native_hash(5, 64), 5);
    assert_eq!(rotl_native_hash(5, 65), 10);
}

#[test]
fn renumbers_opcodes_after_the_static_u24_ones() {
    let mut code = vec![0u8, 94, 1, 2, 3, 37, 9, 95];
    assert!(patch_opcodes(OpcodeVersion::B2802, &mut code).is_ok());
    assert_eq!(code, vec![0, 97, 1, 2, 3, 37, 9, 98]);
}

#[test]
fn reports_a_byte_that_is_no_opcode() {
    let mut code = vec![0u8, 200];
    assert_eq!(
        patch_opcodes(OpcodeVersion::B2628, &mut code),
        Err(ParseYscError::InvalidOpcode { opcode: 203, position: 1 })
    );
    let mut code = vec![254u8];
    assert_eq!(
        patch_opcodes(OpcodeVersion::B2628, &mut code),
        Err(ParseYscError::InvalidOpcode { opcode: 254, position: 0 })
    );
}

#[test]
fn parses_a_script() {
    let bytes = script_bytes(0xB0B8, &[37, 1, 0], b"hi\0", b"main", &[1, 2]);
    let script: Script = parse_ysc(&bytes).unwrap();
    let info: &ScriptInfo = &script.header;
    assert_eq!(info.name, "main");
    assert_eq!(info.name_hash, 0xABCD);
    assert_eq!(info.globals_version, 7);
    assert_eq!(info.parameter_count, 2);
    assert_eq!(info.static_count, 5);
    assert_eq!(script.code, vec![37, 1, 0]);
    assert_eq!(script.strings, b"hi\0".to_vec());
    assert_eq!(script.natives, vec![1u64.rotate_left(3), 2u64.rotate_left(4)]);
    assert_eq!(script.get_string(0), Some("hi"));
    assert_eq!(script.get_string(3), None);
}

#[test]
fn parse_reports_unknown_magic_and_short_natives() {
    let bytes = script_bytes(0x1111, &[], b"", b"m", &[]);
    assert_eq!(
        parse_ysc(&bytes).unwrap_err(),
        ParseYscError::InvalidMagic { source: UnknownMagicError { magic: 0x1111 } }
    );
    let mut bytes = script_bytes(0xB0B8, &[0], b"", b"m", &[7]);
    bytes.truncate(bytes.len() - 1);
    assert!(matches!(
        parse_ysc(&bytes).unwrap_err(),
        ParseYscError::InvalidNativeInfo { count: 1, .. }
    ));
}
