use crate::common::le_bytes::{fits, le_value, read_u32, read_u8};
use crate::common::utf8::str_from_utf8;
use vstd::prelude::*;

verus! {

/// The magic of a resource container ("RSC7") that may wrap a script.
pub const RSC7_MAGIC: u32 = 0x37435352;

/// The size of the fixed part of a PC script header.
pub const PC_HEADER_SIZE: usize = 0x80;

/// The header of a PC script (`.ysc`) file.
#[derive(Debug)]
pub struct ScriptHeader {
    pub magic: u32,
    pub sub_header: u32,
    pub code_blocks_offset: u32,
    pub globals_version: u32,
    pub code_size: u32,
    pub paramter_count: u32,
    pub statics_count: u32,
    pub globals_count: u32,
    pub natives_count: u32,
    pub statics_offset: u32,
    pub globals_offset: u32,
    pub natives_offset: u32,
    pub name_hash: u32,
    pub script_name_offset: u32,
    pub string_offset: u32,
    pub strings_size: u32,
    pub rsc7_offset: Option<u32>,
    pub string_table_offsets: Vec<u32>,
    pub code_table_offsets: Vec<u32>,
    pub string_blocks: u32,
    pub code_blocks: u32,
    pub script_name: String,
}

/// Why a script header could not be read.
#[derive(Debug, PartialEq, Eq, Structural)]
pub enum ParseScriptHeaderError {
    /// The bytes end before the header, its block tables or the script name
    /// do.
    InvalidBinaryFormat,
    /// The script name is not valid UTF-8.
    ScriptNameParseError,
}

/// Whether the file starts with the resource container magic.
pub open spec fn is_rsc7(bytes: Seq<u8>) -> bool {
    fits(bytes, 0, 4) && le_value(bytes, 0, 4) == RSC7_MAGIC
}

/// Where the header starts: after the resource container header, if any.
pub open spec fn header_start(bytes: Seq<u8>) -> int {
    if is_rsc7(bytes) {
        0x10
    } else {
        0
    }
}

/// The `u32` field at `field` within the header.
pub open spec fn header_field(bytes: Seq<u8>, field: int) -> u32 {
    le_value(bytes, header_start(bytes) + field, 4) as u32
}

/// A 24-bit pointer field within the header.
pub open spec fn header_pointer(bytes: Seq<u8>, field: int) -> u32 {
    header_field(bytes, field) & 0xFFFFFF
}

/// A 24-bit pointer is below `2^24`.
pub proof fn lemma_header_pointer_bound(bytes: Seq<u8>, field: int)
    ensures
        header_pointer(bytes, field) <= 0xFFFFFF,
{
    let v = header_field(bytes, field);
    assert(v & 0xFFFFFF <= 0xFFFFFF) by (bit_vector);
}

/// The number of 16 KiB blocks that `size` bytes take.
pub open spec fn block_count(size: u32) -> nat {
    ((size + 0x3FFF) / 0x4000) as nat
}

/// The number of string blocks the header announces.
pub open spec fn string_block_count(bytes: Seq<u8>) -> nat {
    block_count(header_field(bytes, 0x70))
}

/// The number of code blocks the header announces.
pub open spec fn code_block_count(bytes: Seq<u8>) -> nat {
    block_count(header_field(bytes, 0x1C))
}

/// Block table entry `i`, a 24-bit pointer made absolute.
pub open spec fn table_entry(bytes: Seq<u8>, i: int) -> u32 {
    (((le_value(bytes, header_start(bytes) + PC_HEADER_SIZE + 4 * i, 4) as u32) & 0xFFFFFF)
        + header_start(bytes)) as u32
}

/// Where the script name starts.
pub open spec fn name_start(bytes: Seq<u8>) -> int {
    header_start(bytes) + header_pointer(bytes, 0x60)
}

/// The first byte at or after `i` that ends a name (0x00 or 0xFF), or -1 if
/// there is none.
pub open spec fn name_end(bytes: Seq<u8>, i: int) -> int
    decreases bytes.len() - i,
{
    if i < 0 || i >= bytes.len() {
        -1
    } else if bytes[i] == 0 || bytes[i] == 0xFF {
        i
    } else {
        name_end(bytes, i + 1)
    }
}

/// The bytes of the script name.
pub open spec fn name_bytes(bytes: Seq<u8>) -> Seq<u8> {
    bytes.subrange(name_start(bytes), name_end(bytes, name_start(bytes)))
}

/// The block sizes can be rounded up to whole blocks within a `u32`.
pub open spec fn header_sizes_fit(bytes: Seq<u8>) -> bool {
    fits(bytes, header_start(bytes), PC_HEADER_SIZE as int) ==> {
        &&& header_field(bytes, 0x70) + 0x3FFF <= u32::MAX
        &&& header_field(bytes, 0x1C) + 0x3FFF <= u32::MAX
    }
}

/// Everything the reader reads lies within `bytes`.
pub open spec fn pc_header_complete(bytes: Seq<u8>) -> bool {
    &&& fits(bytes, 0, 4)
    &&& fits(
        bytes,
        header_start(bytes),
        PC_HEADER_SIZE + 4 * (string_block_count(bytes) + code_block_count(bytes)),
    )
    &&& name_end(bytes, name_start(bytes)) >= 0
}

/// `h` holds what the PC header in `bytes` says.
pub open spec fn header_matches(h: ScriptHeader, bytes: Seq<u8>) -> bool {
    let sb = string_block_count(bytes);
    let cb = code_block_count(bytes);
    &&& h.magic == header_field(bytes, 0x00)
    &&& h.sub_header == header_pointer(bytes, 0x08)
    &&& h.code_blocks_offset == header_pointer(bytes, 0x10)
    &&& h.globals_version == header_field(bytes, 0x18)
    &&& h.code_size == header_field(bytes, 0x1C)
    &&& h.paramter_count == header_field(bytes, 0x20)
    &&& h.statics_count == header_field(bytes, 0x24)
    &&& h.globals_count == header_field(bytes, 0x28)
    &&& h.natives_count == header_field(bytes, 0x2C)
    &&& h.statics_offset == header_pointer(bytes, 0x30)
    &&& h.globals_offset == header_pointer(bytes, 0x38)
    &&& h.natives_offset == header_pointer(bytes, 0x40)
    &&& h.name_hash == header_field(bytes, 0x58)
    &&& h.script_name_offset == header_pointer(bytes, 0x60)
    &&& h.string_offset == header_pointer(bytes, 0x68)
    &&& h.strings_size == header_field(bytes, 0x70)
    &&& h.rsc7_offset == (if is_rsc7(bytes) {
        Some(0x10u32)
    } else {
        None::<u32>
    })
    &&& h.string_blocks == sb
    &&& h.code_blocks == cb
    &&& h.string_table_offsets@ == Seq::new(sb, |i: int| table_entry(bytes, i))
    &&& h.code_table_offsets@ == Seq::new(cb, |i: int| table_entry(bytes, sb + i))
    &&& h.script_name@ == vstd::utf8::decode_utf8(name_bytes(bytes))
}

impl ScriptHeader {
    /// Reads the header of a PC script, which may sit in a resource
    /// container.
    pub fn read_pc_header(bytes: &[u8]) -> (r: Result<Self, ParseScriptHeaderError>)
        requires
            header_sizes_fit(bytes@),
        ensures
            r matches Err(ParseScriptHeaderError::InvalidBinaryFormat) <==> !pc_header_complete(
                bytes@,
            ),
            r matches Err(ParseScriptHeaderError::ScriptNameParseError) <==> pc_header_complete(
                bytes@,
            ) && !vstd::utf8::valid_utf8(name_bytes(bytes@)),
            r matches Ok(h) ==> header_matches(h, bytes@),
    {
        let first = match read_u32(bytes, 0) {
            Some(v) => v,
            None => return Err(ParseScriptHeaderError::InvalidBinaryFormat),
        };
        let rsc7_offset: Option<u32> = if first == RSC7_MAGIC {
            Some(0x10)
        } else {
            None
        };
        let offset: u32 = match rsc7_offset {
            Some(o) => o,
            None => 0,
        };
        let start = offset as usize;
        assert(start == header_start(bytes@));
        if !(start < bytes.len() && bytes.len() - start >= PC_HEADER_SIZE) {
            return Err(ParseScriptHeaderError::InvalidBinaryFormat);
        }
        let magic = read_field(bytes, start, 0x00);
        let sub_header = read_field(bytes, start, 0x08) & 0xFFFFFF;
        let code_blocks_offset = read_field(bytes, start, 0x10) & 0xFFFFFF;
        let globals_version = read_field(bytes, start, 0x18);
        let code_size = read_field(bytes, start, 0x1C);
        let paramter_count = read_field(bytes, start, 0x20);
        let statics_count = read_field(bytes, start, 0x24);
        let globals_count = read_field(bytes, start, 0x28);
        let natives_count = read_field(bytes, start, 0x2C);
        let statics_offset = read_field(bytes, start, 0x30) & 0xFFFFFF;
        let globals_offset = read_field(bytes, start, 0x38) & 0xFFFFFF;
        let natives_offset = read_field(bytes, start, 0x40) & 0xFFFFFF;
        let name_hash = read_field(bytes, start, 0x58);
        let script_name_raw = read_field(bytes, start, 0x60);
        let script_name_offset = script_name_raw & 0xFFFFFF;
        let string_offset = read_field(bytes, start, 0x68) & 0xFFFFFF;
        let strings_size = read_field(bytes, start, 0x70);

        let string_blocks = blocks_of(strings_size);
        let code_blocks = blocks_of(code_size);
        let ghost sb = string_block_count(bytes@);
        let ghost cb = code_block_count(bytes@);

        let table_start = start + PC_HEADER_SIZE;
        let string_table_offsets = match read_table(bytes, table_start, string_blocks, offset) {
            Some(t) => t,
            None => return Err(ParseScriptHeaderError::InvalidBinaryFormat),
        };
        let code_start = table_start + 4 * (string_blocks as usize);
        let code_table_offsets = match read_table(bytes, code_start, code_blocks, offset) {
            Some(t) => t,
            None => return Err(ParseScriptHeaderError::InvalidBinaryFormat),
        };
        assert(fits(bytes@, start as int, PC_HEADER_SIZE + 4 * (sb + cb)));
        assert(string_table_offsets@ =~= Seq::new(sb, |i: int| table_entry(bytes@, i)));
        assert(code_table_offsets@ =~= Seq::new(cb, |i: int| table_entry(bytes@, sb + i)));

        assert(script_name_offset <= 0xFFFFFF) by (bit_vector)
            requires
                script_name_offset == script_name_raw & 0xFFFFFF,
        ;
        let name_pos = start + script_name_offset as usize;
        assert(name_pos == name_start(bytes@));
        let end = match find_name_end(bytes, name_pos) {
            Some(e) => e,
            None => return Err(ParseScriptHeaderError::InvalidBinaryFormat),
        };
        let script_name = match str_from_utf8(&bytes[name_pos..end]) {
            Some(s) => s.to_owned(),
            None => return Err(ParseScriptHeaderError::ScriptNameParseError),
        };
        Ok(ScriptHeader {
            magic,
            sub_header,
            code_blocks_offset,
            globals_version,
            code_size,
            paramter_count,
            statics_count,
            globals_count,
            natives_count,
            statics_offset,
            globals_offset,
            natives_offset,
            name_hash,
            script_name_offset,
            string_offset,
            strings_size,
            rsc7_offset,
            string_table_offsets,
            code_table_offsets,
            string_blocks,
            code_blocks,
            script_name,
        })
    }
}

/// The header field at `field`, the header being known to be complete.
fn read_field(bytes: &[u8], start: usize, field: usize) -> (r: u32)
    requires
        fits(bytes@, start as int, PC_HEADER_SIZE as int),
        field + 4 <= PC_HEADER_SIZE,
    ensures
        r == le_value(bytes@, start + field, 4),
{
    let n = bytes.len();
    read_u32(bytes, start + field).unwrap()
}

/// `size` rounded up to whole 16 KiB blocks.
fn blocks_of(size: u32) -> (r: u32)
    requires
        size + 0x3FFF <= u32::MAX,
    ensures
        r == block_count(size),
{
    let x: u32 = size + 0x3FFF;
    assert(x >> 14 == x / 0x4000) by (bit_vector);
    x >> 14
}

/// `count` table entries from `pos` on, each a 24-bit pointer plus `offset`,
/// or `None` if the table runs past the end.
fn read_table(bytes: &[u8], pos: usize, count: u32, offset: u32) -> (r: Option<Vec<u32>>)
    requires
        offset <= 0x10,
    ensures
        r is Some <==> count == 0 || fits(bytes@, pos as int, 4 * count),
        r matches Some(t) ==> t@ == Seq::new(
            count as nat,
            |i: int| (((le_value(bytes@, pos + 4 * i, 4) as u32) & 0xFFFFFF) + offset) as u32,
        ),
{
    let mut t: Vec<u32> = Vec::new();
    let mut i: u32 = 0;
    while i < count
        invariant
            i <= count,
            offset <= 0x10,
            i > 0 ==> fits(bytes@, pos as int, 4 * i),
            t@ == Seq::new(
                i as nat,
                |j: int| (((le_value(bytes@, pos + 4 * j, 4) as u32) & 0xFFFFFF) + offset) as u32,
            ),
        decreases count - i,
    {
        if !(pos < bytes.len() && (bytes.len() - pos) / 4 > i as usize) {
            assert(!fits(bytes@, pos + 4 * i, 4));
            return None;
        }
        let v = read_u32(bytes, pos + 4 * (i as usize)).unwrap();
        let masked = v & 0xFFFFFF;
        assert(masked <= 0xFFFFFF) by (bit_vector)
            requires
                masked == v & 0xFFFFFF,
        ;
        t.push(masked + offset);
        i = i + 1;
        assert(t@ =~= Seq::new(
            i as nat,
            |j: int| (((le_value(bytes@, pos + 4 * j, 4) as u32) & 0xFFFFFF) + offset) as u32,
        ));
    }
    Some(t)
}

/// The first name terminator at or after `pos`.
fn find_name_end(bytes: &[u8], pos: usize) -> (r: Option<usize>)
    ensures
        r is None <==> name_end(bytes@, pos as int) < 0,
        r matches Some(e) ==> e == name_end(bytes@, pos as int) && pos <= e < bytes@.len(),
{
    let mut i = pos;
    while i < bytes.len()
        invariant
            pos <= i,
            name_end(bytes@, pos as int) == name_end(bytes@, i as int),
        decreases bytes.len() - i,
    {
        let b = read_u8(bytes, i).unwrap();
        if b == 0 || b == 0xFF {
            return Some(i);
        }
        i = i + 1;
    }
    None
}

} // verus!
