use crate::common::le_bytes::{fits, le_i16, le_value, read_i16, read_u16, read_u24, read_u32, read_u8};
use crate::common::utf8::str_from_utf8;
use crate::parser::instruction::{Instruction, PARSER_OPCODE_COUNT};
use std::ops::Range;
use vstd::prelude::*;

verus! {

/// Why code could not be decoded.
#[derive(Debug, Clone, Copy, PartialEq, Eq, Structural)]
pub enum ParseAssemblyError {
    /// The byte is no opcode.
    ReadInstructionError { input: u8 },
    /// The code ends inside an instruction.
    ReadError,
    /// A jump leads before the start of the address space; `pos` is where
    /// its offset ends.
    InvalidJump { pos: usize, offset: i16 },
    /// A function name is not valid UTF-8; `pos` is where the name ends.
    InvalidFunctionNameError { pos: usize },
}

/// `base + offset`, unless that leaves the range of `usize`.
pub open spec fn offset_position(base: usize, offset: i16) -> Option<usize> {
    let t = base + offset;
    if 0 <= t <= usize::MAX {
        Some(t as usize)
    } else {
        None
    }
}

/// Adds a signed 16-bit offset to a position, if the sum is a position.
pub fn add_i16_to_usize(base: usize, offset: i16) -> (r: Option<usize>)
    ensures
        r == offset_position(base, offset),
{
    if offset < 0 {
        let back = (-(offset as i32)) as usize;
        if base >= back {
            Some(base - back)
        } else {
            None
        }
    } else {
        base.checked_add(offset as usize)
    }
}

/// The target of the jump whose 16-bit offset is at `at`: the offset counts
/// from two bytes past its own end.
pub open spec fn jump_target(code: Seq<u8>, at: int) -> int {
    at + 4 + le_i16(code, at)
}

/// The jump whose offset is at `at` leads to a position.
pub open spec fn jump_ok(code: Seq<u8>, at: int) -> bool {
    0 <= jump_target(code, at) <= usize::MAX
}

/// The bytes of operands that follow opcode `op`, for opcodes whose
/// operands have a fixed size.
pub open spec fn fixed_operand_size(op: u8) -> nat {
    match op {
        37 | 52 | 53 | 54 | 55 | 56 | 57 | 58 | 59 | 60 | 61 | 62 | 64 | 65 | 66 | 101 | 102 | 103 | 104 => 1,
        38 | 46 | 67 | 68 | 69 | 70 | 71 | 72 | 73 | 74 | 75 | 76 | 77 | 78 | 79 | 80 | 81 | 82 | 83 | 84 | 85 | 86 | 87 | 88 | 89 | 90 | 91 | 92 => 2,
        39 | 44 | 93 | 94 | 95 | 96 | 97 => 3,
        40 | 41 => 4,
        _ => 0,
    }
}

/// Opcode `op` takes a jump offset.
pub open spec fn is_jump(op: u8) -> bool {
    op == 85 || op == 86 || op == 87 || op == 88 || op == 89 || op == 90 || op == 91 || op == 92
}

/// The opcode of `Enter`.
pub const ENTER_OPCODE: u8 = 45;

/// The opcode of `Switch`.
pub const SWITCH_OPCODE: u8 = 98;

/// The size of the instruction at `pos`, as its opcode and count bytes say.
pub open spec fn insn_len(code: Seq<u8>, pos: int) -> nat {
    let op = code[pos];
    if op == ENTER_OPCODE {
        5 + code[pos + 4] as nat
    } else if op == SWITCH_OPCODE {
        2 + 6 * code[pos + 1] as nat
    } else {
        1 + fixed_operand_size(op)
    }
}

/// The first error among `count` switch cases from `at` on, if any.
pub open spec fn switch_error(code: Seq<u8>, at: int, count: nat) -> Option<ParseAssemblyError>
    decreases count,
{
    if count == 0 {
        None
    } else if !fits(code, at, 6) {
        Some(ParseAssemblyError::ReadError)
    } else if !jump_ok(code, at + 4) {
        Some(
            ParseAssemblyError::InvalidJump {
                pos: (at + 6) as usize,
                offset: le_i16(code, at + 4) as i16,
            },
        )
    } else {
        switch_error(code, at + 6, (count - 1) as nat)
    }
}

/// What keeps the instruction at `pos` from decoding, if anything.
pub open spec fn insn_error(code: Seq<u8>, pos: int) -> Option<ParseAssemblyError> {
    let op = code[pos];
    if op >= PARSER_OPCODE_COUNT {
        Some(ParseAssemblyError::ReadInstructionError { input: op })
    } else if op == ENTER_OPCODE {
        if !fits(code, pos + 1, 4) {
            Some(ParseAssemblyError::ReadError)
        } else if code[pos + 4] == 0 {
            None
        } else if !fits(code, pos + 5, code[pos + 4] as int) {
            Some(ParseAssemblyError::ReadError)
        } else if !vstd::utf8::valid_utf8(code.subrange(pos + 5, pos + 5 + code[pos + 4])) {
            Some(
                ParseAssemblyError::InvalidFunctionNameError {
                    pos: (pos + 5 + code[pos + 4]) as usize,
                },
            )
        } else {
            None
        }
    } else if op == SWITCH_OPCODE {
        if !fits(code, pos + 1, 1) {
            Some(ParseAssemblyError::ReadError)
        } else {
            switch_error(code, pos + 2, code[pos + 1] as nat)
        }
    } else if !fits(code, pos + 1, fixed_operand_size(op) as int) {
        Some(ParseAssemblyError::ReadError)
    } else if is_jump(op) && !jump_ok(code, pos + 1) {
        Some(
            ParseAssemblyError::InvalidJump {
                pos: (pos + 3) as usize,
                offset: le_i16(code, pos + 1) as i16,
            },
        )
    } else {
        None
    }
}

/// The jump target stored as an instruction operand.
pub open spec fn target_operand(code: Seq<u8>, at: int) -> u32 {
    jump_target(code, at) as u32
}

/// `instr` is what the bytes at `pos` encode.
pub open spec fn decodes_to(code: Seq<u8>, pos: int, instr: Instruction) -> bool {
    match instr {
        Instruction::Nop => code[pos] == 0,
        Instruction::IntegerAdd => code[pos] == 1,
        Instruction::IntegerSubtract => code[pos] == 2,
        Instruction::IntegerMultiply => code[pos] == 3,
        Instruction::IntegerDivide => code[pos] == 4,
        Instruction::IntigerModulo => code[pos] == 5,
        Instruction::IntegerNot => code[pos] == 6,
        Instruction::IntegerNegate => code[pos] == 7,
        Instruction::IntegerEquals => code[pos] == 8,
        Instruction::IntegerNotEquals => code[pos] == 9,
        Instruction::IntegerGreaterThan => code[pos] == 10,
        Instruction::IntegerGreaterOrEqual => code[pos] == 11,
        Instruction::IntegerLowerThan => code[pos] == 12,
        Instruction::IntegerLowerOrEqual => code[pos] == 13,
        Instruction::FloatAdd => code[pos] == 14,
        Instruction::FloatSubtract => code[pos] == 15,
        Instruction::FloatMultiply => code[pos] == 16,
        Instruction::FloatDivide => code[pos] == 17,
        Instruction::FloatModule => code[pos] == 18,
        Instruction::FloatNegate => code[pos] == 19,
        Instruction::FloatEquals => code[pos] == 20,
        Instruction::FloatNotEquals => code[pos] == 21,
        Instruction::FloatGreaterThan => code[pos] == 22,
        Instruction::FloatGreaterOrEqual => code[pos] == 23,
        Instruction::FloatLowerThan => code[pos] == 24,
        Instruction::FloatLowerOrEqual => code[pos] == 25,
        Instruction::VectorAdd => code[pos] == 26,
        Instruction::VectorSubtract => code[pos] == 27,
        Instruction::VectorMultiply => code[pos] == 28,
        Instruction::VectorDivide => code[pos] == 29,
        Instruction::VectorNegate => code[pos] == 30,
        Instruction::BitwiseAnd => code[pos] == 31,
        Instruction::BitwiseOr => code[pos] == 32,
        Instruction::BitwiseXor => code[pos] == 33,
        Instruction::IntegerToFloat => code[pos] == 34,
        Instruction::FloatToInteger => code[pos] == 35,
        Instruction::FloatToVector => code[pos] == 36,
        Instruction::PushConstU8(a) => code[pos] == 37 && a == code[pos + 1],
        Instruction::PushConstU8U8(a, b) => code[pos] == 38 && a == code[pos + 1] && b == code[pos + 2],
        Instruction::PushConstU8U8U8(a, b, c) => code[pos] == 39 && a == code[pos + 1] && b == code[pos + 2] && c
            == code[pos + 3],
        Instruction::PushConstU32(a) => code[pos] == 40 && a == le_value(code, pos + 1, 4),
        Instruction::PushConstFloat(a) => code[pos] == 41 && a == le_value(code, pos + 1, 4),
        Instruction::Dup => code[pos] == 42,
        Instruction::Drop => code[pos] == 43,
        Instruction::NativeCall { arg_count, return_count, native_index } => {
            &&& code[pos] == 44
            &&& return_count == code[pos + 1] & 0x03
            &&& arg_count == code[pos + 1] & 0xFC
            &&& native_index == le_value(code, pos + 2, 2)
        },
        Instruction::Enter { paramter_count, var_count, name } => {
            &&& code[pos] == 45
            &&& paramter_count == code[pos + 1]
            &&& var_count == le_value(code, pos + 2, 2)
            &&& (name is None <==> code[pos + 4] == 0)
            &&& (name matches Some(s) ==> s@ == vstd::utf8::decode_utf8(
                code.subrange(pos + 5, pos + 5 + code[pos + 4]),
            ))
        },
        Instruction::Leave(a, b) => code[pos] == 46 && a == code[pos + 1] && b == code[pos + 2],
        Instruction::Load => code[pos] == 47,
        Instruction::Store => code[pos] == 48,
        Instruction::StoreRev => code[pos] == 49,
        Instruction::LoadN => code[pos] == 50,
        Instruction::StoreN => code[pos] == 51,
        Instruction::ArrayU8(a) => code[pos] == 52 && a == code[pos + 1],
        Instruction::ArrayU8Load(a) => code[pos] == 53 && a == code[pos + 1],
        Instruction::ArrayU8Store(a) => code[pos] == 54 && a == code[pos + 1],
        Instruction::LocalU8(a) => code[pos] == 55 && a == code[pos + 1],
        Instruction::LocalU8Load(a) => code[pos] == 56 && a == code[pos + 1],
        Instruction::LocalU8Store(a) => code[pos] == 57 && a == code[pos + 1],
        Instruction::StaticU8(a) => code[pos] == 58 && a == code[pos + 1],
        Instruction::StaticU8Load(a) => code[pos] == 59 && a == code[pos + 1],
        Instruction::StaticU8Store(a) => code[pos] == 60 && a == code[pos + 1],
        Instruction::AddU8(a) => code[pos] == 61 && a == code[pos + 1],
        Instruction::MultiplyU8(a) => code[pos] == 62 && a == code[pos + 1],
        Instruction::Offset => code[pos] == 63,
        Instruction::OffsetU8(a) => code[pos] == 64 && a == code[pos + 1],
        Instruction::OffsetU8Load(a) => code[pos] == 65 && a == code[pos + 1],
        Instruction::OffsetU8Store(a) => code[pos] == 66 && a == code[pos + 1],
        Instruction::PushConstS16(a) => code[pos] == 67 && a == le_i16(code, pos + 1),
        Instruction::AddS16(a) => code[pos] == 68 && a == le_i16(code, pos + 1),
        Instruction::MultiplyS16(a) => code[pos] == 69 && a == le_i16(code, pos + 1),
        Instruction::OffsetS16(a) => code[pos] == 70 && a == le_i16(code, pos + 1),
        Instruction::OffsetS16Load(a) => code[pos] == 71 && a == le_i16(code, pos + 1),
        Instruction::OffsetS16Store(a) => code[pos] == 72 && a == le_i16(code, pos + 1),
        Instruction::ArrayU16(a) => code[pos] == 73 && a == le_value(code, pos + 1, 2),
        Instruction::ArrayU16Load(a) => code[pos] == 74 && a == le_value(code, pos + 1, 2),
        Instruction::ArrayU16Store(a) => code[pos] == 75 && a == le_value(code, pos + 1, 2),
        Instruction::LocalU16(a) => code[pos] == 76 && a == le_value(code, pos + 1, 2),
        Instruction::LocalU16Load(a) => code[pos] == 77 && a == le_value(code, pos + 1, 2),
        Instruction::LocalU16Store(a) => code[pos] == 78 && a == le_value(code, pos + 1, 2),
        Instruction::StaticU16(a) => code[pos] == 79 && a == le_value(code, pos + 1, 2),
        Instruction::StaticU16Load(a) => code[pos] == 80 && a == le_value(code, pos + 1, 2),
        Instruction::StaticU16Store(a) => code[pos] == 81 && a == le_value(code, pos + 1, 2),
        Instruction::GlobalU16(a) => code[pos] == 82 && a == le_value(code, pos + 1, 2),
        Instruction::GlobalU16Load(a) => code[pos] == 83 && a == le_value(code, pos + 1, 2),
        Instruction::GlobalU16Store(a) => code[pos] == 84 && a == le_value(code, pos + 1, 2),
        Instruction::Jump(a) => code[pos] == 85 && a == target_operand(code, pos + 1),
        Instruction::JumpZero(a) => code[pos] == 86 && a == target_operand(code, pos + 1),
        Instruction::IfEqualJump(a) => code[pos] == 87 && a == target_operand(code, pos + 1),
        Instruction::IfNotEqualJump(a) => code[pos] == 88 && a == target_operand(code, pos + 1),
        Instruction::IfGreaterThanJump(a) => code[pos] == 89 && a == target_operand(code, pos + 1),
        Instruction::IfGreaterOrEqualJump(a) => code[pos] == 90 && a == target_operand(code, pos + 1),
        Instruction::IfLowerThanJump(a) => code[pos] == 91 && a == target_operand(code, pos + 1),
        Instruction::IfLowerOrEqualJump(a) => code[pos] == 92 && a == target_operand(code, pos + 1),
        Instruction::FunctionCall(a) => code[pos] == 93 && a == le_value(code, pos + 1, 3),
        Instruction::GlobalU24(a) => code[pos] == 94 && a == le_value(code, pos + 1, 3),
        Instruction::GlobalU24Load(a) => code[pos] == 95 && a == le_value(code, pos + 1, 3),
        Instruction::GlobalU24Store(a) => code[pos] == 96 && a == le_value(code, pos + 1, 3),
        Instruction::PushConstU24(a) => code[pos] == 97 && a == le_value(code, pos + 1, 3),
        Instruction::Switch(cases) => {
            &&& code[pos] == 98
            &&& cases@.len() == code[pos + 1]
            &&& forall|k: int|
                0 <= k < cases@.len() ==> #[trigger] cases@[k] == (
                    le_value(code, pos + 2 + 6 * k, 4) as u32,
                    target_operand(code, pos + 2 + 6 * k + 4),
                )
        },
        Instruction::String => code[pos] == 99,
        Instruction::Stringhash => code[pos] == 100,
        Instruction::TextLabelAssignString(a) => code[pos] == 101 && a == code[pos + 1],
        Instruction::TextLabelAssignInt(a) => code[pos] == 102 && a == code[pos + 1],
        Instruction::TextLabelAppendString(a) => code[pos] == 103 && a == code[pos + 1],
        Instruction::TextLabelAppendInt(a) => code[pos] == 104 && a == code[pos + 1],
        Instruction::TextLabelCopy => code[pos] == 105,
        Instruction::Catch => code[pos] == 106,
        Instruction::Throw => code[pos] == 107,
        Instruction::CallIndirect => code[pos] == 108,
        Instruction::PushConstM1 => code[pos] == 109,
        Instruction::PushConst0 => code[pos] == 110,
        Instruction::PushConst1 => code[pos] == 111,
        Instruction::PushConst2 => code[pos] == 112,
        Instruction::PushConst3 => code[pos] == 113,
        Instruction::PushConst4 => code[pos] == 114,
        Instruction::PushConst5 => code[pos] == 115,
        Instruction::PushConst6 => code[pos] == 116,
        Instruction::PushConst7 => code[pos] == 117,
        Instruction::PushConstFm1 => code[pos] == 118,
        Instruction::PushConstF0 => code[pos] == 119,
        Instruction::PushConstF1 => code[pos] == 120,
        Instruction::PushConstF2 => code[pos] == 121,
        Instruction::PushConstF3 => code[pos] == 122,
        Instruction::PushConstF4 => code[pos] == 123,
        Instruction::PushConstF5 => code[pos] == 124,
        Instruction::PushConstF6 => code[pos] == 125,
        Instruction::PushConstF7 => code[pos] == 126,
        Instruction::BitTest => code[pos] == 127,
    }
}

/// The first error met when decoding from `pos` to the end, if any.
pub open spec fn first_error(code: Seq<u8>, pos: int) -> Option<ParseAssemblyError>
    decreases code.len() - pos,
{
    if pos < 0 || pos >= code.len() {
        None
    } else {
        match insn_error(code, pos) {
            Some(e) => Some(e),
            None => if pos + insn_len(code, pos) > code.len() {
                None
            } else {
                first_error(code, pos + insn_len(code, pos))
            },
        }
    }
}

/// `decoded` covers `code` from `pos` to the end, instruction by
/// instruction.
pub open spec fn decodes_from(code: Seq<u8>, pos: int, decoded: Seq<(Range<usize>, Instruction)>) -> bool
    decreases decoded.len(),
{
    if decoded.len() == 0 {
        pos == code.len()
    } else {
        let (range, instr) = decoded[0];
        &&& 0 <= pos < code.len()
        &&& insn_error(code, pos) is None
        &&& range.start == pos
        &&& range.end == pos + insn_len(code, pos)
        &&& decodes_to(code, pos, instr)
        &&& decodes_from(code, range.end as int, decoded.drop_first())
    }
}

/// Decodes the instruction at `pos`: the instruction and where the next one
/// starts.
fn decode_one(code: &[u8], pos: usize) -> (r: Result<(Instruction, usize), ParseAssemblyError>)
    requires
        pos < code@.len(),
        code@.len() <= isize::MAX,
    ensures
        match r {
            Ok((instr, end)) => {
                &&& insn_error(code@, pos as int) is None
                &&& end == pos + insn_len(code@, pos as int)
                &&& pos < end <= code@.len()
                &&& decodes_to(code@, pos as int, instr)
            },
            Err(e) => insn_error(code@, pos as int) == Some(e),
        },
{
    let op = code[pos];
    match op {
        0 => Ok((Instruction::Nop, pos + 1)),
        1 => Ok((Instruction::IntegerAdd, pos + 1)),
        2 => Ok((Instruction::IntegerSubtract, pos + 1)),
        3 => Ok((Instruction::IntegerMultiply, pos + 1)),
        4 => Ok((Instruction::IntegerDivide, pos + 1)),
        5 => Ok((Instruction::IntigerModulo, pos + 1)),
        6 => Ok((Instruction::IntegerNot, pos + 1)),
        7 => Ok((Instruction::IntegerNegate, pos + 1)),
        8 => Ok((Instruction::IntegerEquals, pos + 1)),
        9 => Ok((Instruction::IntegerNotEquals, pos + 1)),
        10 => Ok((Instruction::IntegerGreaterThan, pos + 1)),
        11 => Ok((Instruction::IntegerGreaterOrEqual, pos + 1)),
        12 => Ok((Instruction::IntegerLowerThan, pos + 1)),
        13 => Ok((Instruction::IntegerLowerOrEqual, pos + 1)),
        14 => Ok((Instruction::FloatAdd, pos + 1)),
        15 => Ok((Instruction::FloatSubtract, pos + 1)),
        16 => Ok((Instruction::FloatMultiply, pos + 1)),
        17 => Ok((Instruction::FloatDivide, pos + 1)),
        18 => Ok((Instruction::FloatModule, pos + 1)),
        19 => Ok((Instruction::FloatNegate, pos + 1)),
        20 => Ok((Instruction::FloatEquals, pos + 1)),
        21 => Ok((Instruction::FloatNotEquals, pos + 1)),
        22 => Ok((Instruction::FloatGreaterThan, pos + 1)),
        23 => Ok((Instruction::FloatGreaterOrEqual, pos + 1)),
        24 => Ok((Instruction::FloatLowerThan, pos + 1)),
        25 => Ok((Instruction::FloatLowerOrEqual, pos + 1)),
        26 => Ok((Instruction::VectorAdd, pos + 1)),
        27 => Ok((Instruction::VectorSubtract, pos + 1)),
        28 => Ok((Instruction::VectorMultiply, pos + 1)),
        29 => Ok((Instruction::VectorDivide, pos + 1)),
        30 => Ok((Instruction::VectorNegate, pos + 1)),
        31 => Ok((Instruction::BitwiseAnd, pos + 1)),
        32 => Ok((Instruction::BitwiseOr, pos + 1)),
        33 => Ok((Instruction::BitwiseXor, pos + 1)),
        34 => Ok((Instruction::IntegerToFloat, pos + 1)),
        35 => Ok((Instruction::FloatToInteger, pos + 1)),
        36 => Ok((Instruction::FloatToVector, pos + 1)),
        37 => match read_u8(code, pos + 1) {
            Some(a) => Ok((Instruction::PushConstU8(a), pos + 2)),
            None => Err(ParseAssemblyError::ReadError),
        },
        38 => match (read_u8(code, pos + 1), read_u8(code, pos + 2)) {
            (Some(a), Some(b)) => Ok((Instruction::PushConstU8U8(a, b), pos + 3)),
            _ => Err(ParseAssemblyError::ReadError),
        },
        39 => match (read_u8(code, pos + 1), read_u8(code, pos + 2), read_u8(code, pos + 3)) {
            (Some(a), Some(b), Some(c)) => Ok((Instruction::PushConstU8U8U8(a, b, c), pos + 4)),
            _ => Err(ParseAssemblyError::ReadError),
        },
        40 => match read_u32(code, pos + 1) {
            Some(a) => Ok((Instruction::PushConstU32(a), pos + 5)),
            None => Err(ParseAssemblyError::ReadError),
        },
        41 => match read_u32(code, pos + 1) {
            Some(a) => Ok((Instruction::PushConstFloat(a), pos + 5)),
            None => Err(ParseAssemblyError::ReadError),
        },
        42 => Ok((Instruction::Dup, pos + 1)),
        43 => Ok((Instruction::Drop, pos + 1)),
        44 => match (read_u8(code, pos + 1), read_u16(code, pos + 2)) {
            (Some(val), Some(native_index)) => Ok(
                (
                    Instruction::NativeCall {
                        arg_count: val & 0b11111100,
                        return_count: val & 0b00000011,
                        native_index,
                    },
                    pos + 4,
                ),
            ),
            _ => Err(ParseAssemblyError::ReadError),
        },
        45 => decode_enter(code, pos),
        46 => match (read_u8(code, pos + 1), read_u8(code, pos + 2)) {
            (Some(a), Some(b)) => Ok((Instruction::Leave(a, b), pos + 3)),
            _ => Err(ParseAssemblyError::ReadError),
        },
        47 => Ok((Instruction::Load, pos + 1)),
        48 => Ok((Instruction::Store, pos + 1)),
        49 => Ok((Instruction::StoreRev, pos + 1)),
        50 => Ok((Instruction::LoadN, pos + 1)),
        51 => Ok((Instruction::StoreN, pos + 1)),
        52 => match read_u8(code, pos + 1) {
            Some(a) => Ok((Instruction::ArrayU8(a), pos + 2)),
            None => Err(ParseAssemblyError::ReadError),
        },
        53 => match read_u8(code, pos + 1) {
            Some(a) => Ok((Instruction::ArrayU8Load(a), pos + 2)),
            None => Err(ParseAssemblyError::ReadError),
        },
        54 => match read_u8(code, pos + 1) {
            Some(a) => Ok((Instruction::ArrayU8Store(a), pos + 2)),
            None => Err(ParseAssemblyError::ReadError),
        },
        55 => match read_u8(code, pos + 1) {
            Some(a) => Ok((Instruction::LocalU8(a), pos + 2)),
            None => Err(ParseAssemblyError::ReadError),
        },
        56 => match read_u8(code, pos + 1) {
            Some(a) => Ok((Instruction::LocalU8Load(a), pos + 2)),
            None => Err(ParseAssemblyError::ReadError),
        },
        57 => match read_u8(code, pos + 1) {
            Some(a) => Ok((Instruction::LocalU8Store(a), pos + 2)),
            None => Err(ParseAssemblyError::ReadError),
        },
        58 => match read_u8(code, pos + 1) {
            Some(a) => Ok((Instruction::StaticU8(a), pos + 2)),
            None => Err(ParseAssemblyError::ReadError),
        },
        59 => match read_u8(code, pos + 1) {
            Some(a) => Ok((Instruction::StaticU8Load(a), pos + 2)),
            None => Err(ParseAssemblyError::ReadError),
        },
        60 => match read_u8(code, pos + 1) {
            Some(a) => Ok((Instruction::StaticU8Store(a), pos + 2)),
            None => Err(ParseAssemblyError::ReadError),
        },
        61 => match read_u8(code, pos + 1) {
            Some(a) => Ok((Instruction::AddU8(a), pos + 2)),
            None => Err(ParseAssemblyError::ReadError),
        },
        62 => match read_u8(code, pos + 1) {
            Some(a) => Ok((Instruction::MultiplyU8(a), pos + 2)),
            None => Err(ParseAssemblyError::ReadError),
        },
        63 => Ok((Instruction::Offset, pos + 1)),
        64 => match read_u8(code, pos + 1) {
            Some(a) => Ok((Instruction::OffsetU8(a), pos + 2)),
            None => Err(ParseAssemblyError::ReadError),
        },
        65 => match read_u8(code, pos + 1) {
            Some(a) => Ok((Instruction::OffsetU8Load(a), pos + 2)),
            None => Err(ParseAssemblyError::ReadError),
        },
        66 => match read_u8(code, pos + 1) {
            Some(a) => Ok((Instruction::OffsetU8Store(a), pos + 2)),
            None => Err(ParseAssemblyError::ReadError),
        },
        67 => match read_i16(code, pos + 1) {
            Some(a) => Ok((Instruction::PushConstS16(a), pos + 3)),
            None => Err(ParseAssemblyError::ReadError),
        },
        68 => match read_i16(code, pos + 1) {
            Some(a) => Ok((Instruction::AddS16(a), pos + 3)),
            None => Err(ParseAssemblyError::ReadError),
        },
        69 => match read_i16(code, pos + 1) {
            Some(a) => Ok((Instruction::MultiplyS16(a), pos + 3)),
            None => Err(ParseAssemblyError::ReadError),
        },
        70 => match read_i16(code, pos + 1) {
            Some(a) => Ok((Instruction::OffsetS16(a), pos + 3)),
            None => Err(ParseAssemblyError::ReadError),
        },
        71 => match read_i16(code, pos + 1) {
            Some(a) => Ok((Instruction::OffsetS16Load(a), pos + 3)),
            None => Err(ParseAssemblyError::ReadError),
        },
        72 => match read_i16(code, pos + 1) {
            Some(a) => Ok((Instruction::OffsetS16Store(a), pos + 3)),
            None => Err(ParseAssemblyError::ReadError),
        },
        73 => match read_u16(code, pos + 1) {
            Some(a) => Ok((Instruction::ArrayU16(a), pos + 3)),
            None => Err(ParseAssemblyError::ReadError),
        },
        74 => match read_u16(code, pos + 1) {
            Some(a) => Ok((Instruction::ArrayU16Load(a), pos + 3)),
            None => Err(ParseAssemblyError::ReadError),
        },
        75 => match read_u16(code, pos + 1) {
            Some(a) => Ok((Instruction::ArrayU16Store(a), pos + 3)),
            None => Err(ParseAssemblyError::ReadError),
        },
        76 => match read_u16(code, pos + 1) {
            Some(a) => Ok((Instruction::LocalU16(a), pos + 3)),
            None => Err(ParseAssemblyError::ReadError),
        },
        77 => match read_u16(code, pos + 1) {
            Some(a) => Ok((Instruction::LocalU16Load(a), pos + 3)),
            None => Err(ParseAssemblyError::ReadError),
        },
        78 => match read_u16(code, pos + 1) {
            Some(a) => Ok((Instruction::LocalU16Store(a), pos + 3)),
            None => Err(ParseAssemblyError::ReadError),
        },
        79 => match read_u16(code, pos + 1) {
            Some(a) => Ok((Instruction::StaticU16(a), pos + 3)),
            None => Err(ParseAssemblyError::ReadError),
        },
        80 => match read_u16(code, pos + 1) {
            Some(a) => Ok((Instruction::StaticU16Load(a), pos + 3)),
            None => Err(ParseAssemblyError::ReadError),
        },
        81 => match read_u16(code, pos + 1) {
            Some(a) => Ok((Instruction::StaticU16Store(a), pos + 3)),
            None => Err(ParseAssemblyError::ReadError),
        },
        82 => match read_u16(code, pos + 1) {
            Some(a) => Ok((Instruction::GlobalU16(a), pos + 3)),
            None => Err(ParseAssemblyError::ReadError),
        },
        83 => match read_u16(code, pos + 1) {
            Some(a) => Ok((Instruction::GlobalU16Load(a), pos + 3)),
            None => Err(ParseAssemblyError::ReadError),
        },
        84 => match read_u16(code, pos + 1) {
            Some(a) => Ok((Instruction::GlobalU16Store(a), pos + 3)),
            None => Err(ParseAssemblyError::ReadError),
        },
        85 => match get_jump_address(code, pos + 1) {
            Ok(a) => Ok((Instruction::Jump(a), pos + 3)),
            Err(e) => Err(e),
        },
        86 => match get_jump_address(code, pos + 1) {
            Ok(a) => Ok((Instruction::JumpZero(a), pos + 3)),
            Err(e) => Err(e),
        },
        87 => match get_jump_address(code, pos + 1) {
            Ok(a) => Ok((Instruction::IfEqualJump(a), pos + 3)),
            Err(e) => Err(e),
        },
        88 => match get_jump_address(code, pos + 1) {
            Ok(a) => Ok((Instruction::IfNotEqualJump(a), pos + 3)),
            Err(e) => Err(e),
        },
        89 => match get_jump_address(code, pos + 1) {
            Ok(a) => Ok((Instruction::IfGreaterThanJump(a), pos + 3)),
            Err(e) => Err(e),
        },
        90 => match get_jump_address(code, pos + 1) {
            Ok(a) => Ok((Instruction::IfGreaterOrEqualJump(a), pos + 3)),
            Err(e) => Err(e),
        },
        91 => match get_jump_address(code, pos + 1) {
            Ok(a) => Ok((Instruction::IfLowerThanJump(a), pos + 3)),
            Err(e) => Err(e),
        },
        92 => match get_jump_address(code, pos + 1) {
            Ok(a) => Ok((Instruction::IfLowerOrEqualJump(a), pos + 3)),
            Err(e) => Err(e),
        },
        93 => match read_u24(code, pos + 1) {
            Some(a) => Ok((Instruction::FunctionCall(a), pos + 4)),
            None => Err(ParseAssemblyError::ReadError),
        },
        94 => match read_u24(code, pos + 1) {
            Some(a) => Ok((Instruction::GlobalU24(a), pos + 4)),
            None => Err(ParseAssemblyError::ReadError),
        },
        95 => match read_u24(code, pos + 1) {
            Some(a) => Ok((Instruction::GlobalU24Load(a), pos + 4)),
            None => Err(ParseAssemblyError::ReadError),
        },
        96 => match read_u24(code, pos + 1) {
            Some(a) => Ok((Instruction::GlobalU24Store(a), pos + 4)),
            None => Err(ParseAssemblyError::ReadError),
        },
        97 => match read_u24(code, pos + 1) {
            Some(a) => Ok((Instruction::PushConstU24(a), pos + 4)),
            None => Err(ParseAssemblyError::ReadError),
        },
        98 => decode_switch(code, pos),
        99 => Ok((Instruction::String, pos + 1)),
        100 => Ok((Instruction::Stringhash, pos + 1)),
        101 => match read_u8(code, pos + 1) {
            Some(a) => Ok((Instruction::TextLabelAssignString(a), pos + 2)),
            None => Err(ParseAssemblyError::ReadError),
        },
        102 => match read_u8(code, pos + 1) {
            Some(a) => Ok((Instruction::TextLabelAssignInt(a), pos + 2)),
            None => Err(ParseAssemblyError::ReadError),
        },
        103 => match read_u8(code, pos + 1) {
            Some(a) => Ok((Instruction::TextLabelAppendString(a), pos + 2)),
            None => Err(ParseAssemblyError::ReadError),
        },
        104 => match read_u8(code, pos + 1) {
            Some(a) => Ok((Instruction::TextLabelAppendInt(a), pos + 2)),
            None => Err(ParseAssemblyError::ReadError),
        },
        105 => Ok((Instruction::TextLabelCopy, pos + 1)),
        106 => Ok((Instruction::Catch, pos + 1)),
        107 => Ok((Instruction::Throw, pos + 1)),
        108 => Ok((Instruction::CallIndirect, pos + 1)),
        109 => Ok((Instruction::PushConstM1, pos + 1)),
        110 => Ok((Instruction::PushConst0, pos + 1)),
        111 => Ok((Instruction::PushConst1, pos + 1)),
        112 => Ok((Instruction::PushConst2, pos + 1)),
        113 => Ok((Instruction::PushConst3, pos + 1)),
        114 => Ok((Instruction::PushConst4, pos + 1)),
        115 => Ok((Instruction::PushConst5, pos + 1)),
        116 => Ok((Instruction::PushConst6, pos + 1)),
        117 => Ok((Instruction::PushConst7, pos + 1)),
        118 => Ok((Instruction::PushConstFm1, pos + 1)),
        119 => Ok((Instruction::PushConstF0, pos + 1)),
        120 => Ok((Instruction::PushConstF1, pos + 1)),
        121 => Ok((Instruction::PushConstF2, pos + 1)),
        122 => Ok((Instruction::PushConstF3, pos + 1)),
        123 => Ok((Instruction::PushConstF4, pos + 1)),
        124 => Ok((Instruction::PushConstF5, pos + 1)),
        125 => Ok((Instruction::PushConstF6, pos + 1)),
        126 => Ok((Instruction::PushConstF7, pos + 1)),
        127 => Ok((Instruction::BitTest, pos + 1)),
        _ => Err(ParseAssemblyError::ReadInstructionError { input: op }),
    }
}

/// Reads a jump offset at `at` and turns it into the jump's target.
fn get_jump_address(code: &[u8], at: usize) -> (r: Result<u32, ParseAssemblyError>)
    requires
        at <= code@.len(),
        code@.len() <= isize::MAX,
    ensures
        match r {
            Ok(t) => fits(code@, at as int, 2) && jump_ok(code@, at as int) && t == target_operand(
                code@,
                at as int,
            ),
            Err(ParseAssemblyError::ReadError) => !fits(code@, at as int, 2),
            Err(ParseAssemblyError::InvalidJump { pos, offset }) => {
                &&& fits(code@, at as int, 2)
                &&& !jump_ok(code@, at as int)
                &&& pos == at + 2
                &&& offset == le_i16(code@, at as int)
            },
            Err(_) => false,
        },
{
    let offset = match read_i16(code, at) {
        Some(o) => o,
        None => return Err(ParseAssemblyError::ReadError),
    };
    let after = at + 2;
    match add_i16_to_usize(after + 2, offset) {
        Some(t) => Ok(t as u32),
        None => Err(ParseAssemblyError::InvalidJump { pos: after, offset }),
    }
}

/// Decodes an `Enter` at `pos`.
fn decode_enter(code: &[u8], pos: usize) -> (r: Result<(Instruction, usize), ParseAssemblyError>)
    requires
        pos < code@.len(),
        code@.len() <= isize::MAX,
        code@[pos as int] == ENTER_OPCODE,
    ensures
        match r {
            Ok((instr, end)) => {
                &&& insn_error(code@, pos as int) is None
                &&& end == pos + insn_len(code@, pos as int)
                &&& pos < end <= code@.len()
                &&& decodes_to(code@, pos as int, instr)
            },
            Err(e) => insn_error(code@, pos as int) == Some(e),
        },
{
    let (paramter_count, var_count, length) = match (
        read_u8(code, pos + 1),
        read_u16(code, pos + 2),
        read_u8(code, pos + 4),
    ) {
        (Some(a), Some(b), Some(c)) => (a, b, c),
        _ => return Err(ParseAssemblyError::ReadError),
    };
    let start = pos + 5;
    if length == 0 {
        return Ok((Instruction::Enter { paramter_count, var_count, name: None }, start));
    }
    if !(start <= code.len() && code.len() - start >= length as usize) {
        return Err(ParseAssemblyError::ReadError);
    }
    let end = start + length as usize;
    match str_from_utf8(&code[start..end]) {
        Some(s) => Ok(
            (
                Instruction::Enter { paramter_count, var_count, name: Some(s.to_owned()) },
                end,
            ),
        ),
        None => Err(ParseAssemblyError::InvalidFunctionNameError { pos: end }),
    }
}

/// Decodes a `Switch` at `pos`.
fn decode_switch(code: &[u8], pos: usize) -> (r: Result<(Instruction, usize), ParseAssemblyError>)
    requires
        pos < code@.len(),
        code@.len() <= isize::MAX,
        code@[pos as int] == SWITCH_OPCODE,
    ensures
        match r {
            Ok((instr, end)) => {
                &&& insn_error(code@, pos as int) is None
                &&& end == pos + insn_len(code@, pos as int)
                &&& pos < end <= code@.len()
                &&& decodes_to(code@, pos as int, instr)
            },
            Err(e) => insn_error(code@, pos as int) == Some(e),
        },
{
    let count = match read_u8(code, pos + 1) {
        Some(c) => c,
        None => return Err(ParseAssemblyError::ReadError),
    };
    let mut cases: Vec<(u32, u32)> = Vec::new();
    let mut at = pos + 2;
    let mut k: u8 = 0;
    while k < count
        invariant
            pos < code@.len() <= isize::MAX,
            code@[pos as int] == SWITCH_OPCODE,
            count == code@[pos + 1],
            k <= count,
            at == pos + 2 + 6 * k,
            at <= code@.len(),
            switch_error(code@, pos + 2, count as nat) == switch_error(
                code@,
                at as int,
                (count - k) as nat,
            ),
            cases@.len() == k,
            forall|j: int|
                0 <= j < k ==> #[trigger] cases@[j] == (
                    le_value(code@, pos + 2 + 6 * j, 4) as u32,
                    target_operand(code@, pos + 2 + 6 * j + 4),
                ),
        decreases count - k,
    {
        let value = match read_u32(code, at) {
            Some(v) => v,
            None => return Err(ParseAssemblyError::ReadError),
        };
        let location = match get_jump_address(code, at + 4) {
            Ok(t) => t,
            Err(e) => return Err(e),
        };
        cases.push((value, location));
        at = at + 6;
        k = k + 1;
    }
    Ok((Instruction::Switch(cases), at))
}

/// Decodes `byte_code` into its instructions, each with the range of bytes
/// it takes.
pub fn parse_assembly(byte_code: &[u8]) -> (r: Result<Vec<(Range<usize>, Instruction)>, ParseAssemblyError>)
    requires
        byte_code@.len() <= isize::MAX,
    ensures
        r is Ok <==> first_error(byte_code@, 0) is None,
        r matches Err(e) ==> first_error(byte_code@, 0) == Some(e),
        r matches Ok(v) ==> decodes_from(byte_code@, 0, v@),
{
    let mut result: Vec<(Range<usize>, Instruction)> = Vec::new();
    let mut pos: usize = 0;
    let ghost mut suffix_start: Seq<(Range<usize>, Instruction)> = Seq::empty();
    while pos != byte_code.len()
        invariant
            byte_code@.len() <= isize::MAX,
            pos <= byte_code@.len(),
            first_error(byte_code@, 0) == first_error(byte_code@, pos as int),
            forall|rest: Seq<(Range<usize>, Instruction)>|
                decodes_from(byte_code@, pos as int, rest) ==> decodes_from(
                    byte_code@,
                    0,
                    result@ + rest,
                ),
        decreases byte_code@.len() - pos,
    {
        let start_pos = pos;
        match decode_one(byte_code, pos) {
            Ok((instruction, end)) => {
                proof {
                    assert forall|rest: Seq<(Range<usize>, Instruction)>|
                        decodes_from(byte_code@, end as int, rest) implies decodes_from(
                        byte_code@,
                        0,
                        result@.push((start_pos..end, instruction)) + rest,
                    ) by {
                        let longer = seq![(start_pos..end, instruction)] + rest;
                        assert(longer.drop_first() =~= rest);
                        assert(decodes_from(byte_code@, pos as int, longer));
                        assert(result@.push((start_pos..end, instruction)) + rest =~= result@
                            + longer);
                    }
                }
                result.push((start_pos..end, instruction));
                pos = end;
            },
            Err(e) => {
                return Err(e);
            },
        }
    }
    proof {
        assert(decodes_from(byte_code@, pos as int, Seq::empty()));
        assert(result@ + Seq::<(Range<usize>, Instruction)>::empty() =~= result@);
    }
    Ok(result)
}

} // verus!
