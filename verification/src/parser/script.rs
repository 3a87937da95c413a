use crate::parser::assembly_parser::{decodes_from, first_error, parse_assembly, ParseAssemblyError};
use crate::parser::instruction::Instruction;
use crate::parser::script_header::{
    code_block_count, header_field, header_matches, header_sizes_fit, name_bytes,
    pc_header_complete, string_block_count, table_entry, ParseScriptHeaderError, ScriptHeader,
};
use crate::parser::util::{blocks_fit, flatten_table, flattened, lemma_flattened_len, positions};
use std::ops::Range;
use vstd::prelude::*;

verus! {

/// The size of the blocks that code and strings are stored in.
pub const BLOCK_SIZE: usize = 0x4000;

/// A PC script with its code decoded.
#[derive(Debug)]
pub struct Script {
    pub header: ScriptHeader,
    pub code: Vec<u8>,
    pub strings: Vec<u8>,
    pub instructions: Vec<(Range<usize>, Instruction)>,
}

/// Why a PC script could not be read.
#[derive(Debug, PartialEq, Eq, Structural)]
pub enum ParseScriptError {
    ParseHeaderError { source: ParseScriptHeaderError },
    ParseAssemblyError { source: ParseAssemblyError },
}

/// The code block positions that the header lists.
pub open spec fn script_code_offsets(bytes: Seq<u8>) -> Seq<usize> {
    Seq::new(
        code_block_count(bytes),
        |i: int| table_entry(bytes, string_block_count(bytes) + i) as usize,
    )
}

/// The string block positions that the header lists.
pub open spec fn script_string_offsets(bytes: Seq<u8>) -> Seq<usize> {
    Seq::new(string_block_count(bytes), |i: int| table_entry(bytes, i) as usize)
}

/// The code of the script, its blocks joined.
pub open spec fn script_code(bytes: Seq<u8>) -> Seq<u8> {
    flattened(
        bytes,
        header_field(bytes, 0x1C) as nat,
        script_code_offsets(bytes),
        BLOCK_SIZE as nat,
        code_block_count(bytes),
    )
}

/// The strings of the script, their blocks joined.
pub open spec fn script_strings(bytes: Seq<u8>) -> Seq<u8> {
    flattened(
        bytes,
        header_field(bytes, 0x70) as nat,
        script_string_offsets(bytes),
        BLOCK_SIZE as nat,
        string_block_count(bytes),
    )
}

/// The header reads.
pub open spec fn script_header_ok(bytes: Seq<u8>) -> bool {
    pc_header_complete(bytes) && vstd::utf8::valid_utf8(name_bytes(bytes))
}

/// What reading needs of the file beyond what it checks: the block counts
/// fit a `u32`, the blocks lie within the file, and the code fits in memory.
pub open spec fn script_requires(bytes: Seq<u8>) -> bool {
    &&& header_sizes_fit(bytes)
    &&& script_header_ok(bytes) ==> {
        &&& blocks_fit(
            bytes,
            header_field(bytes, 0x1C) as nat,
            script_code_offsets(bytes),
            BLOCK_SIZE as nat,
        )
        &&& blocks_fit(
            bytes,
            header_field(bytes, 0x70) as nat,
            script_string_offsets(bytes),
            BLOCK_SIZE as nat,
        )
        &&& header_field(bytes, 0x1C) <= isize::MAX
    }
}

impl Script {
    /// Reads a PC script: its header, its code and strings, and the
    /// instructions of its code.
    pub fn from_pc_script(bytes: &[u8]) -> (r: Result<Self, ParseScriptError>)
        requires
            script_requires(bytes@),
        ensures
            !pc_header_complete(bytes@) ==> r == Err::<Script, ParseScriptError>(
                ParseScriptError::ParseHeaderError {
                    source: ParseScriptHeaderError::InvalidBinaryFormat,
                },
            ),
            pc_header_complete(bytes@) && !vstd::utf8::valid_utf8(name_bytes(bytes@)) ==> r
                == Err::<Script, ParseScriptError>(
                ParseScriptError::ParseHeaderError {
                    source: ParseScriptHeaderError::ScriptNameParseError,
                },
            ),
            script_header_ok(bytes@) ==> match first_error(script_code(bytes@), 0) {
                Some(e) => r == Err::<Script, ParseScriptError>(
                    ParseScriptError::ParseAssemblyError { source: e },
                ),
                None => r is Ok,
            },
            r matches Ok(s) ==> {
                &&& header_matches(s.header, bytes@)
                &&& s.code@ == script_code(bytes@)
                &&& s.strings@ == script_strings(bytes@)
                &&& decodes_from(s.code@, 0, s.instructions@)
            },
    {
        let header = match ScriptHeader::read_pc_header(bytes) {
            Ok(h) => h,
            Err(source) => return Err(ParseScriptError::ParseHeaderError { source }),
        };
        let code_blocks = positions(&header.code_table_offsets);
        assert(code_blocks@ =~= script_code_offsets(bytes@));
        let code = flatten_table(bytes, header.code_size as usize, code_blocks.as_slice(), BLOCK_SIZE);
        let string_blocks = positions(&header.string_table_offsets);
        assert(string_blocks@ =~= script_string_offsets(bytes@));
        let strings = flatten_table(
            bytes,
            header.strings_size as usize,
            string_blocks.as_slice(),
            BLOCK_SIZE,
        );
        proof {
            lemma_flattened_len(
                bytes@,
                header.code_size as nat,
                code_blocks@,
                BLOCK_SIZE as nat,
                code_blocks@.len(),
            );
        }
        let instructions = match parse_assembly(code.as_slice()) {
            Ok(i) => i,
            Err(source) => return Err(ParseScriptError::ParseAssemblyError { source }),
        };
        Ok(Script { header, code, strings, instructions })
    }
}

} // verus!
