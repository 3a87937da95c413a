use crate::common::le_bytes::{fits, le_value, read_u32, read_u64};
use crate::disassembler::opcodes::{Opcode, OPCODE_COUNT};
use crate::parser::script_header::{
    block_count, code_block_count, header_field, header_matches, header_pointer, header_sizes_fit,
    is_rsc7, lemma_header_pointer_bound, PC_HEADER_SIZE, RSC7_MAGIC, header_start, name_bytes, pc_header_complete, string_block_count, table_entry,
    ParseScriptHeaderError, ScriptHeader,
};
use crate::parser::script::{BLOCK_SIZE, script_code, script_code_offsets, script_string_offsets, script_strings};
use crate::parser::util::{blocks_fit, check_blocks_fit, flatten_table, positions};
use crate::script::ysc::ysc_header_parser::{OpcodeVersion, YscHeaderParser};
use crate::script::ysc::ysc_header_parser_factory::{
    magic_readable, script_magic, version_for_magic, UnknownMagicError, YscHeaderParserFactory,
};
use crate::script::{Script, ScriptInfo};
use vstd::prelude::*;

verus! {

/// Why a script could not be parsed.
#[derive(Debug, PartialEq, Eq, Structural)]
pub enum ParseYscError {
    /// The magic belongs to no known build.
    InvalidMagic { source: UnknownMagicError },
    /// The header could not be read.
    FailedToParseHeader { source: ParseScriptHeaderError },
    /// A byte of the code is no opcode, after renumbering.
    InvalidOpcode { opcode: u8, position: usize },
    /// The native hash table runs past the end of the file.
    InvalidNativeInfo { offset: u32, count: u32 },
}

/// Why a script file could not be parsed.
#[derive(Debug)]
pub enum ParseYscFileError {
    /// The file was read, but its contents are no valid script.
    ParseError { path: Option<String>, source: ParseYscError },
    /// The file could not be read.
    ReadFileError { path: Option<String>, message: String },
}

/// `hash` rotated left by `n` bits, for `n < 64`.
pub open spec fn rotl64(hash: u64, n: u32) -> u64 {
    if n == 0 {
        hash
    } else {
        (hash << n) | (hash >> (64 - n) as u32)
    }
}

/// Undoes the rotation that hides a native hash: rotates it left by
/// `rotate % 64` bits.
pub fn rotl_native_hash(hash: u64, rotate: u32) -> (r: u64)
    ensures
        r == rotl64(hash, rotate % 64),
{
    let n = rotate % 64;
    if n == 0 {
        hash
    } else {
        (hash << n) | (hash >> (64 - n))
    }
}

/// The byte that stands for `byte` once the build's numbering is brought to
/// the current one: builds up to b2802 lack the three `StaticU24` opcodes, so
/// every byte from that opcode's value on moves up by three.
pub open spec fn renumbered(version: OpcodeVersion, byte: u8) -> int {
    if version.rank_spec() <= OpcodeVersion::B2802.rank_spec() && byte >= Opcode::StaticU24.code_spec() {
        byte + 3
    } else {
        byte as int
    }
}

/// Walks the code from `i` on, renumbering each opcode and skipping its
/// operands: the renumbered code, or the first byte that is no opcode and
/// its position.
pub open spec fn patch_from(version: OpcodeVersion, bytes: Seq<u8>, i: nat) -> Result<
    Seq<u8>,
    (u8, nat),
>
    decreases bytes.len() - i,
{
    if i >= bytes.len() {
        Ok(bytes)
    } else {
        let p = renumbered(version, bytes[i as int]);
        if p > 255 {
            Err((bytes[i as int], i))
        } else if p >= OPCODE_COUNT {
            Err((p as u8, i))
        } else {
            let patched = bytes.update(i as int, p as u8);
            let size = Opcode::from_u8_spec(p as u8)->0.size_spec(
                patched.subrange(i as int, bytes.len() as int),
            );
            if i + size >= bytes.len() {
                Ok(patched)
            } else {
                patch_from(version, patched, i + size)
            }
        }
    }
}

/// Renumbers the opcodes of `bytes` from the numbering of `version` to the
/// current one, walking from instruction to instruction.
pub fn patch_opcodes(version: OpcodeVersion, bytes: &mut [u8]) -> (r: Result<(), ParseYscError>)
    ensures
        match patch_from(version, old(bytes)@, 0) {
            Ok(patched) => r is Ok && final(bytes)@ == patched,
            Err((opcode, position)) => r == Err::<(), ParseYscError>(
                ParseYscError::InvalidOpcode { opcode, position: position as usize },
            ),
        },
{
    let mut i: usize = 0;
    let ghost start = bytes@;
    while i < bytes.len()
        invariant
            bytes@.len() == start.len(),
            start == old(bytes)@,
            patch_from(version, bytes@, i as nat) == patch_from(version, start, 0),
        decreases bytes@.len() - i,
    {
        let byte = bytes[i];
        let renumber = version.rank() <= OpcodeVersion::B2802.rank() && byte
            >= Opcode::StaticU24.code();
        let p: u8 = if renumber {
            if byte > 252 {
                assert(patch_from(version, bytes@, i as nat) == Err::<Seq<u8>, (u8, nat)>(
                    (byte, i as nat),
                ));
                return Err(ParseYscError::InvalidOpcode { opcode: byte, position: i });
            }
            byte + 3
        } else {
            byte
        };
        let opcode = match Opcode::from_u8(p) {
            Some(op) => op,
            None => {
                assert(patch_from(version, bytes@, i as nat) == Err::<Seq<u8>, (u8, nat)>(
                    (p, i as nat),
                ));
                return Err(ParseYscError::InvalidOpcode { opcode: p, position: i });
            },
        };
        bytes[i] = p;
        let size = opcode.size(slice_from(bytes, i));
        if bytes.len() - i <= size {
            i = bytes.len();
        } else {
            i = i + size;
        }
    }
    Ok(())
}

/// `bytes[from..]`.
fn slice_from(bytes: &[u8], from: usize) -> (r: &[u8])
    requires
        from <= bytes@.len(),
    ensures
        r@ == bytes@.subrange(from as int, bytes@.len() as int),
{
    &bytes[from..bytes.len()]
}





/// The build of the script, by its magic.
pub open spec fn ysc_version(bytes: Seq<u8>) -> Option<OpcodeVersion> {
    version_for_magic(script_magic(bytes))
}

/// The magic is known and the header reads.
pub open spec fn ysc_header_ok(bytes: Seq<u8>) -> bool {
    &&& ysc_version(bytes) is Some
    &&& pc_header_complete(bytes)
    &&& vstd::utf8::valid_utf8(name_bytes(bytes))
}

/// The header reads and the code renumbers.
pub open spec fn ysc_code_ok(bytes: Seq<u8>) -> bool {
    &&& ysc_header_ok(bytes)
    &&& patch_from(ysc_version(bytes)->0, script_code(bytes), 0) is Ok
}

/// Where the native hashes start.
pub open spec fn natives_start(bytes: Seq<u8>) -> int {
    header_pointer(bytes, 0x40) + if is_rsc7(bytes) {
        0x10int
    } else {
        0
    }
}

/// The native hash table lies within the file.
pub open spec fn natives_fit(bytes: Seq<u8>) -> bool {
    header_field(bytes, 0x2C) == 0 || fits(
        bytes,
        natives_start(bytes),
        8 * header_field(bytes, 0x2C),
    )
}

/// Native `i`, its stored hash rotated back.
pub open spec fn native_hash(bytes: Seq<u8>, i: int) -> u64 {
    rotl64(
        le_value(bytes, natives_start(bytes) + 8 * i, 8) as u64,
        ((header_field(bytes, 0x1C) + i) as u32) % 64,
    )
}

/// What parsing needs of the file beyond what it checks: the magic is
/// there, the block counts and the native rotations stay within a `u32`,
/// and the blocks that the header lists lie within the file.
pub open spec fn ysc_parse_requires(bytes: Seq<u8>) -> bool {
    &&& magic_readable(bytes)
    &&& ysc_version(bytes) is Some ==> header_sizes_fit(bytes)
    &&& ysc_header_ok(bytes) ==> blocks_fit(
        bytes,
        header_field(bytes, 0x1C) as nat,
        script_code_offsets(bytes),
        BLOCK_SIZE as nat,
    )
    &&& ysc_code_ok(bytes) ==> {
        &&& blocks_fit(
            bytes,
            header_field(bytes, 0x70) as nat,
            script_string_offsets(bytes),
            BLOCK_SIZE as nat,
        )
        &&& header_field(bytes, 0x1C) + header_field(bytes, 0x2C) <= u32::MAX + 1
    }
}

/// Parses a script file: reads its header, joins and renumbers its code,
/// joins its strings and reads its native hashes.
pub fn parse_ysc(bytes: &[u8]) -> (r: Result<Script, ParseYscError>)
    requires
        ysc_parse_requires(bytes@),
    ensures
        ysc_version(bytes@) is None ==> r == Err::<Script, ParseYscError>(
            ParseYscError::InvalidMagic {
                source: UnknownMagicError { magic: script_magic(bytes@) },
            },
        ),
        ysc_version(bytes@) is Some && !pc_header_complete(bytes@) ==> r == Err::<
            Script,
            ParseYscError,
        >(
            ParseYscError::FailedToParseHeader {
                source: ParseScriptHeaderError::InvalidBinaryFormat,
            },
        ),
        ysc_version(bytes@) is Some && pc_header_complete(bytes@) && !vstd::utf8::valid_utf8(
            name_bytes(bytes@),
        ) ==> r == Err::<Script, ParseYscError>(
            ParseYscError::FailedToParseHeader {
                source: ParseScriptHeaderError::ScriptNameParseError,
            },
        ),
        ysc_header_ok(bytes@) ==> match patch_from(ysc_version(bytes@)->0, script_code(bytes@), 0) {
            Err((opcode, position)) => r == Err::<Script, ParseYscError>(
                ParseYscError::InvalidOpcode { opcode, position: position as usize },
            ),
            Ok(_) => !natives_fit(bytes@) <==> r == Err::<Script, ParseYscError>(
                ParseYscError::InvalidNativeInfo {
                    offset: header_pointer(bytes@, 0x40),
                    count: header_field(bytes@, 0x2C),
                },
            ),
        },
        r is Ok <==> ysc_code_ok(bytes@) && natives_fit(bytes@),
        r matches Ok(s) ==> {
            &&& Ok::<Seq<u8>, (u8, nat)>(s.code@) == patch_from(ysc_version(bytes@)->0, script_code(bytes@), 0)
            &&& s.strings@ == script_strings(bytes@)
            &&& s.natives@ == Seq::new(
                header_field(bytes@, 0x2C) as nat,
                |i: int| native_hash(bytes@, i),
            )
            &&& s.header.name@ == vstd::utf8::decode_utf8(name_bytes(bytes@))
            &&& s.header.name_hash == header_field(bytes@, 0x58)
            &&& s.header.globals_version == header_field(bytes@, 0x18)
            &&& s.header.parameter_count == header_field(bytes@, 0x20)
            &&& s.header.static_count == header_field(bytes@, 0x24)
        },
{
    let header_parser = match YscHeaderParserFactory::create(bytes) {
        Ok(p) => p,
        Err(source) => return Err(ParseYscError::InvalidMagic { source }),
    };
    let header = match header_parser.parse(bytes) {
        Ok(h) => h,
        Err(source) => return Err(ParseYscError::FailedToParseHeader { source }),
    };
    let code_blocks = positions(&header.code_table_offsets);
    assert(code_blocks@ =~= script_code_offsets(bytes@));
    let mut code = flatten_table(
        bytes,
        header.code_size as usize,
        code_blocks.as_slice(),
        BLOCK_SIZE,
    );
    match patch_opcodes(header_parser.opcode_version(), code.as_mut_slice()) {
        Ok(()) => {},
        Err(e) => return Err(e),
    }
    let string_blocks = positions(&header.string_table_offsets);
    assert(string_blocks@ =~= script_string_offsets(bytes@));
    let strings = flatten_table(
        bytes,
        header.strings_size as usize,
        string_blocks.as_slice(),
        BLOCK_SIZE,
    );
    let rsc7: u32 = match header.rsc7_offset {
        Some(o) => o,
        None => 0,
    };
    proof {
        lemma_header_pointer_bound(bytes@, 0x40);
    }
    let natives_pos = header.natives_offset as usize + rsc7 as usize;
    let mut natives: Vec<u64> = Vec::new();
    let mut pos = natives_pos;
    let mut i: u32 = 0;
    let bytes_len = bytes.len();
    while i < header.natives_count
        invariant
            header_matches(header, bytes@),
            ysc_code_ok(bytes@),
            bytes_len == bytes@.len(),
            natives_pos == natives_start(bytes@),
            i <= header.natives_count,
            pos == natives_pos + 8 * i,
            i > 0 ==> fits(bytes@, natives_pos as int, 8 * i),
            header.code_size + header.natives_count <= u32::MAX + 1,
            natives@ == Seq::new(i as nat, |j: int| native_hash(bytes@, j)),
        decreases header.natives_count - i,
    {
        let hash = match read_u64(bytes, pos) {
            Some(h) => h,
            None => {
                assert(!natives_fit(bytes@));
                return Err(
                    ParseYscError::InvalidNativeInfo {
                        offset: header.natives_offset,
                        count: header.natives_count,
                    },
                );
            },
        };
        natives.push(rotl_native_hash(hash, header.code_size + i));
        pos = pos + 8;
        i = i + 1;
        assert(natives@ =~= Seq::new(i as nat, |j: int| native_hash(bytes@, j)));
    }
    Ok(
        Script {
            header: ScriptInfo {
                name: header.script_name,
                name_hash: header.name_hash,
                globals_version: header.globals_version,
                parameter_count: header.paramter_count,
                static_count: header.statics_count,
            },
            code,
            strings,
            natives,
        },
    )
}


/// Whether the file meets what parsing needs of it beyond what parsing
/// checks.
pub fn check_ysc(bytes: &[u8]) -> (r: bool)
    ensures
        r == ysc_parse_requires(bytes@),
{
    let first = match read_u32(bytes, 0) {
        Some(v) => v,
        None => return false,
    };
    let start: usize = if first == RSC7_MAGIC {
        0x10
    } else {
        0
    };
    assert(start == header_start(bytes@));
    if read_u32(bytes, start).is_none() {
        return false;
    }
    let parser = match YscHeaderParserFactory::create(bytes) {
        Ok(p) => p,
        Err(_) => return true,
    };
    if start < bytes.len() && bytes.len() - start >= PC_HEADER_SIZE {
        let strings_size = read_u32(bytes, start + 0x70).unwrap();
        let code_size = read_u32(bytes, start + 0x1C).unwrap();
        if strings_size > u32::MAX - 0x3FFF || code_size > u32::MAX - 0x3FFF {
            return false;
        }
    }
    assert(header_sizes_fit(bytes@));
    let header = match parser.parse(bytes) {
        Ok(h) => h,
        Err(_) => return true,
    };
    assert(ysc_header_ok(bytes@));
    let code_blocks = positions(&header.code_table_offsets);
    assert(code_blocks@ =~= script_code_offsets(bytes@));
    if !check_blocks_fit(bytes, header.code_size as usize, code_blocks.as_slice(), BLOCK_SIZE) {
        return false;
    }
    let mut code = flatten_table(
        bytes,
        header.code_size as usize,
        code_blocks.as_slice(),
        BLOCK_SIZE,
    );
    if patch_opcodes(parser.opcode_version(), code.as_mut_slice()).is_err() {
        return true;
    }
    assert(ysc_code_ok(bytes@));
    let string_blocks = positions(&header.string_table_offsets);
    assert(string_blocks@ =~= script_string_offsets(bytes@));
    if !check_blocks_fit(bytes, header.strings_size as usize, string_blocks.as_slice(), BLOCK_SIZE) {
        return false;
    }
    (header.code_size as u64) + (header.natives_count as u64) <= 0x1_0000_0000
}

} // verus!
