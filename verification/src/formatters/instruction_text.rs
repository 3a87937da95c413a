use crate::common::utf8::{str_from_utf8, string_push};
use crate::disassembler::instruction::Instruction;
use crate::disassembler::opcodes::Opcode;
use crate::formatters::assembly_formatter::{jump_target, label_view};
use crate::formatters::text::{decimal, push_decimal, push_signed_decimal, signed_decimal};
use crate::script::nul_position;
use std::collections::HashMap;
use vstd::prelude::*;

verus! {

broadcast use {vstd::string::group_string_axioms, vstd::std_specs::hash::group_hash_axioms};

/// The mnemonic of an instruction in a listing.
pub open spec fn mnemonic(instruction: Instruction) -> Seq<char> {
    match instruction {
        Instruction::Nop => "NOP"@,
        Instruction::IntegerAdd => "IADD"@,
        Instruction::IntegerSubtract => "ISUB"@,
        Instruction::IntegerMultiply => "IMUL"@,
        Instruction::IntegerDivide => "IDIV"@,
        Instruction::IntegerModulo => "IMOD"@,
        Instruction::IntegerNot => "INOT"@,
        Instruction::IntegerNegate => "INEG"@,
        Instruction::IntegerEquals => "IEQ"@,
        Instruction::IntegerNotEquals => "INE"@,
        Instruction::IntegerGreaterThan => "IGT"@,
        Instruction::IntegerGreaterOrEqual => "IGE"@,
        Instruction::IntegerLowerThan => "ILT"@,
        Instruction::IntegerLowerOrEqual => "ILE"@,
        Instruction::FloatAdd => "FADD"@,
        Instruction::FloatSubtract => "FSUB"@,
        Instruction::FloatMultiply => "FMUL"@,
        Instruction::FloatDivide => "FDIV"@,
        Instruction::FloatModule => "FMOD"@,
        Instruction::FloatNegate => "FNEG"@,
        Instruction::FloatEquals => "FEQ"@,
        Instruction::FloatNotEquals => "FNE"@,
        Instruction::FloatGreaterThan => "FGT"@,
        Instruction::FloatGreaterOrEqual => "FGE"@,
        Instruction::FloatLowerThan => "FLT"@,
        Instruction::FloatLowerOrEqual => "FLE"@,
        Instruction::VectorAdd => "VADD"@,
        Instruction::VectorSubtract => "VSUB"@,
        Instruction::VectorMultiply => "VMUL"@,
        Instruction::VectorDivide => "VDIV"@,
        Instruction::VectorNegate => "VNEG"@,
        Instruction::BitwiseAnd => "IAND"@,
        Instruction::BitwiseOr => "IOR"@,
        Instruction::BitwiseXor => "IXOR"@,
        Instruction::IntegerToFloat => "I2F"@,
        Instruction::FloatToInteger => "F2I"@,
        Instruction::FloatToVector => "F2V"@,
        Instruction::PushConstU8 { .. } => "PUSH_CONST_U8"@,
        Instruction::PushConstU8U8 { .. } => "PUSH_CONST_U8_U8"@,
        Instruction::PushConstU8U8U8 { .. } => "PUSH_CONST_U8_U8_U8"@,
        Instruction::PushConstU32 { .. } => "PUSH_CONST_U32"@,
        Instruction::PushConstFloat { .. } => "PUSH_CONST_F"@,
        Instruction::Dup => "DUP"@,
        Instruction::Drop => "DROP"@,
        Instruction::NativeCall { .. } => "NATIVE"@,
        Instruction::Enter { .. } => "ENTER"@,
        Instruction::Leave { .. } => "LEAVE"@,
        Instruction::Load => "LOAD"@,
        Instruction::Store => "STORE"@,
        Instruction::StoreRev => "STORE_REV"@,
        Instruction::LoadN => "LOAD_N"@,
        Instruction::StoreN => "STORE_N"@,
        Instruction::ArrayU8 { .. } => "ARRAY_U8"@,
        Instruction::ArrayU8Load { .. } => "ARRAY_U8_LOAD"@,
        Instruction::ArrayU8Store { .. } => "ARRAY_U8_STORE"@,
        Instruction::LocalU8 { .. } => "LOCAL_U8"@,
        Instruction::LocalU8Load { .. } => "LOCAL_U8_LOAD"@,
        Instruction::LocalU8Store { .. } => "LOCAL_U8_STORE"@,
        Instruction::StaticU8 { .. } => "STATIC_U8"@,
        Instruction::StaticU8Load { .. } => "STATIC_U8_LOAD"@,
        Instruction::StaticU8Store { .. } => "STATIC_U8_STORE"@,
        Instruction::AddU8 { .. } => "IADD_U8"@,
        Instruction::MultiplyU8 { .. } => "IMUL_U8"@,
        Instruction::Offset => "IOFFSET"@,
        Instruction::OffsetU8 { .. } => "IOFFSET_U8"@,
        Instruction::OffsetU8Load { .. } => "IOFFSET_U8_LOAD"@,
        Instruction::OffsetU8Store { .. } => "IOFFSET_U8_STORE"@,
        Instruction::PushConstS16 { .. } => "PUSH_CONST_S16"@,
        Instruction::AddS16 { .. } => "IADD_S16"@,
        Instruction::MultiplyS16 { .. } => "IMUL_S16"@,
        Instruction::OffsetS16 { .. } => "IOFFSET_S16"@,
        Instruction::OffsetS16Load { .. } => "IOFFSET_S16_LOAD"@,
        Instruction::OffsetS16Store { .. } => "IOFFSET_S16_STORE"@,
        Instruction::ArrayU16 { .. } => "ARRAY_U16"@,
        Instruction::ArrayU16Load { .. } => "ARRAY_U16_LOAD"@,
        Instruction::ArrayU16Store { .. } => "ARRAY_U16_STORE"@,
        Instruction::LocalU16 { .. } => "LOCAL_U16"@,
        Instruction::LocalU16Load { .. } => "LOCAL_U16_LOAD"@,
        Instruction::LocalU16Store { .. } => "LOCAL_U16_STORE"@,
        Instruction::StaticU16 { .. } => "STATIC_U16"@,
        Instruction::StaticU16Load { .. } => "STATIC_U16_LOAD"@,
        Instruction::StaticU16Store { .. } => "STATIC_U16_STORE"@,
        Instruction::GlobalU16 { .. } => "GLOBAL_U16"@,
        Instruction::GlobalU16Load { .. } => "GLOBAL_U16_LOAD"@,
        Instruction::GlobalU16Store { .. } => "GLOBAL_U16_STORE"@,
        Instruction::Jump { .. } => "J"@,
        Instruction::JumpZero { .. } => "JZ"@,
        Instruction::IfEqualJumpZero { .. } => "IEQ_JZ"@,
        Instruction::IfNotEqualJumpZero { .. } => "INE_JZ"@,
        Instruction::IfGreaterThanJumpZero { .. } => "IGT_JZ"@,
        Instruction::IfGreaterOrEqualJumpZero { .. } => "IGE_JZ"@,
        Instruction::IfLowerThanJumpZero { .. } => "ILT_JZ"@,
        Instruction::IfLowerOrEqualJumpZero { .. } => "ILE_JZ"@,
        Instruction::FunctionCall { .. } => "CALL"@,
        Instruction::StaticU24 { .. } => "STATIC_U24"@,
        Instruction::StaticU24Load { .. } => "STATIC_U24_LOAD"@,
        Instruction::StaticU24Store { .. } => "STATIC_U24_STORE"@,
        Instruction::GlobalU24 { .. } => "GLOBAL_U24"@,
        Instruction::GlobalU24Load { .. } => "GLOBAL_U24_LOAD"@,
        Instruction::GlobalU24Store { .. } => "GLOBAL_U24_STORE"@,
        Instruction::PushConstU24 { .. } => "PUSH_CONST_U24"@,
        Instruction::Switch { .. } => "SWITCH"@,
        Instruction::String => "STRING"@,
        Instruction::StringHash => "STRING_HASH"@,
        Instruction::TextLabelAssignString { .. } => "TEXT_LABEL_ASSIGN_STRING"@,
        Instruction::TextLabelAssignInt { .. } => "TEXT_LABEL_ASSIGN_INT"@,
        Instruction::TextLabelAppendString { .. } => "TEXT_LABEL_APPEND_STRING"@,
        Instruction::TextLabelAppendInt { .. } => "TEXT_LABEL_APPEND_INT"@,
        Instruction::TextLabelCopy => "TEXT_LABEL_COPY"@,
        Instruction::Catch => "CATCH"@,
        Instruction::Throw => "THROW"@,
        Instruction::CallIndirect => "CALLINDIRECT"@,
        Instruction::PushConstM1 => "PUSH_CONST_M1"@,
        Instruction::PushConst0 => "PUSH_CONST_0"@,
        Instruction::PushConst1 => "PUSH_CONST_1"@,
        Instruction::PushConst2 => "PUSH_CONST_2"@,
        Instruction::PushConst3 => "PUSH_CONST_3"@,
        Instruction::PushConst4 => "PUSH_CONST_4"@,
        Instruction::PushConst5 => "PUSH_CONST_5"@,
        Instruction::PushConst6 => "PUSH_CONST_6"@,
        Instruction::PushConst7 => "PUSH_CONST_7"@,
        Instruction::PushConstFm1 => "PUSH_CONST_FM1"@,
        Instruction::PushConstF0 => "PUSH_CONST_F0"@,
        Instruction::PushConstF1 => "PUSH_CONST_F1"@,
        Instruction::PushConstF2 => "PUSH_CONST_F2"@,
        Instruction::PushConstF3 => "PUSH_CONST_F3"@,
        Instruction::PushConstF4 => "PUSH_CONST_F4"@,
        Instruction::PushConstF5 => "PUSH_CONST_F5"@,
        Instruction::PushConstF6 => "PUSH_CONST_F6"@,
        Instruction::PushConstF7 => "PUSH_CONST_F7"@,
        Instruction::BitTest => "BITTEST"@,
    }
}

/// The mnemonic of an instruction in a listing.
fn mnemonic_str(instruction: &Instruction) -> (r: &'static str)
    ensures
        r@ == mnemonic(*instruction),
{
    match instruction {
        Instruction::Nop => "NOP",
        Instruction::IntegerAdd => "IADD",
        Instruction::IntegerSubtract => "ISUB",
        Instruction::IntegerMultiply => "IMUL",
        Instruction::IntegerDivide => "IDIV",
        Instruction::IntegerModulo => "IMOD",
        Instruction::IntegerNot => "INOT",
        Instruction::IntegerNegate => "INEG",
        Instruction::IntegerEquals => "IEQ",
        Instruction::IntegerNotEquals => "INE",
        Instruction::IntegerGreaterThan => "IGT",
        Instruction::IntegerGreaterOrEqual => "IGE",
        Instruction::IntegerLowerThan => "ILT",
        Instruction::IntegerLowerOrEqual => "ILE",
        Instruction::FloatAdd => "FADD",
        Instruction::FloatSubtract => "FSUB",
        Instruction::FloatMultiply => "FMUL",
        Instruction::FloatDivide => "FDIV",
        Instruction::FloatModule => "FMOD",
        Instruction::FloatNegate => "FNEG",
        Instruction::FloatEquals => "FEQ",
        Instruction::FloatNotEquals => "FNE",
        Instruction::FloatGreaterThan => "FGT",
        Instruction::FloatGreaterOrEqual => "FGE",
        Instruction::FloatLowerThan => "FLT",
        Instruction::FloatLowerOrEqual => "FLE",
        Instruction::VectorAdd => "VADD",
        Instruction::VectorSubtract => "VSUB",
        Instruction::VectorMultiply => "VMUL",
        Instruction::VectorDivide => "VDIV",
        Instruction::VectorNegate => "VNEG",
        Instruction::BitwiseAnd => "IAND",
        Instruction::BitwiseOr => "IOR",
        Instruction::BitwiseXor => "IXOR",
        Instruction::IntegerToFloat => "I2F",
        Instruction::FloatToInteger => "F2I",
        Instruction::FloatToVector => "F2V",
        Instruction::PushConstU8 { .. } => "PUSH_CONST_U8",
        Instruction::PushConstU8U8 { .. } => "PUSH_CONST_U8_U8",
        Instruction::PushConstU8U8U8 { .. } => "PUSH_CONST_U8_U8_U8",
        Instruction::PushConstU32 { .. } => "PUSH_CONST_U32",
        Instruction::PushConstFloat { .. } => "PUSH_CONST_F",
        Instruction::Dup => "DUP",
        Instruction::Drop => "DROP",
        Instruction::NativeCall { .. } => "NATIVE",
        Instruction::Enter { .. } => "ENTER",
        Instruction::Leave { .. } => "LEAVE",
        Instruction::Load => "LOAD",
        Instruction::Store => "STORE",
        Instruction::StoreRev => "STORE_REV",
        Instruction::LoadN => "LOAD_N",
        Instruction::StoreN => "STORE_N",
        Instruction::ArrayU8 { .. } => "ARRAY_U8",
        Instruction::ArrayU8Load { .. } => "ARRAY_U8_LOAD",
        Instruction::ArrayU8Store { .. } => "ARRAY_U8_STORE",
        Instruction::LocalU8 { .. } => "LOCAL_U8",
        Instruction::LocalU8Load { .. } => "LOCAL_U8_LOAD",
        Instruction::LocalU8Store { .. } => "LOCAL_U8_STORE",
        Instruction::StaticU8 { .. } => "STATIC_U8",
        Instruction::StaticU8Load { .. } => "STATIC_U8_LOAD",
        Instruction::StaticU8Store { .. } => "STATIC_U8_STORE",
        Instruction::AddU8 { .. } => "IADD_U8",
        Instruction::MultiplyU8 { .. } => "IMUL_U8",
        Instruction::Offset => "IOFFSET",
        Instruction::OffsetU8 { .. } => "IOFFSET_U8",
        Instruction::OffsetU8Load { .. } => "IOFFSET_U8_LOAD",
        Instruction::OffsetU8Store { .. } => "IOFFSET_U8_STORE",
        Instruction::PushConstS16 { .. } => "PUSH_CONST_S16",
        Instruction::AddS16 { .. } => "IADD_S16",
        Instruction::MultiplyS16 { .. } => "IMUL_S16",
        Instruction::OffsetS16 { .. } => "IOFFSET_S16",
        Instruction::OffsetS16Load { .. } => "IOFFSET_S16_LOAD",
        Instruction::OffsetS16Store { .. } => "IOFFSET_S16_STORE",
        Instruction::ArrayU16 { .. } => "ARRAY_U16",
        Instruction::ArrayU16Load { .. } => "ARRAY_U16_LOAD",
        Instruction::ArrayU16Store { .. } => "ARRAY_U16_STORE",
        Instruction::LocalU16 { .. } => "LOCAL_U16",
        Instruction::LocalU16Load { .. } => "LOCAL_U16_LOAD",
        Instruction::LocalU16Store { .. } => "LOCAL_U16_STORE",
        Instruction::StaticU16 { .. } => "STATIC_U16",
        Instruction::StaticU16Load { .. } => "STATIC_U16_LOAD",
        Instruction::StaticU16Store { .. } => "STATIC_U16_STORE",
        Instruction::GlobalU16 { .. } => "GLOBAL_U16",
        Instruction::GlobalU16Load { .. } => "GLOBAL_U16_LOAD",
        Instruction::GlobalU16Store { .. } => "GLOBAL_U16_STORE",
        Instruction::Jump { .. } => "J",
        Instruction::JumpZero { .. } => "JZ",
        Instruction::IfEqualJumpZero { .. } => "IEQ_JZ",
        Instruction::IfNotEqualJumpZero { .. } => "INE_JZ",
        Instruction::IfGreaterThanJumpZero { .. } => "IGT_JZ",
        Instruction::IfGreaterOrEqualJumpZero { .. } => "IGE_JZ",
        Instruction::IfLowerThanJumpZero { .. } => "ILT_JZ",
        Instruction::IfLowerOrEqualJumpZero { .. } => "ILE_JZ",
        Instruction::FunctionCall { .. } => "CALL",
        Instruction::StaticU24 { .. } => "STATIC_U24",
        Instruction::StaticU24Load { .. } => "STATIC_U24_LOAD",
        Instruction::StaticU24Store { .. } => "STATIC_U24_STORE",
        Instruction::GlobalU24 { .. } => "GLOBAL_U24",
        Instruction::GlobalU24Load { .. } => "GLOBAL_U24_LOAD",
        Instruction::GlobalU24Store { .. } => "GLOBAL_U24_STORE",
        Instruction::PushConstU24 { .. } => "PUSH_CONST_U24",
        Instruction::Switch { .. } => "SWITCH",
        Instruction::String => "STRING",
        Instruction::StringHash => "STRING_HASH",
        Instruction::TextLabelAssignString { .. } => "TEXT_LABEL_ASSIGN_STRING",
        Instruction::TextLabelAssignInt { .. } => "TEXT_LABEL_ASSIGN_INT",
        Instruction::TextLabelAppendString { .. } => "TEXT_LABEL_APPEND_STRING",
        Instruction::TextLabelAppendInt { .. } => "TEXT_LABEL_APPEND_INT",
        Instruction::TextLabelCopy => "TEXT_LABEL_COPY",
        Instruction::Catch => "CATCH",
        Instruction::Throw => "THROW",
        Instruction::CallIndirect => "CALLINDIRECT",
        Instruction::PushConstM1 => "PUSH_CONST_M1",
        Instruction::PushConst0 => "PUSH_CONST_0",
        Instruction::PushConst1 => "PUSH_CONST_1",
        Instruction::PushConst2 => "PUSH_CONST_2",
        Instruction::PushConst3 => "PUSH_CONST_3",
        Instruction::PushConst4 => "PUSH_CONST_4",
        Instruction::PushConst5 => "PUSH_CONST_5",
        Instruction::PushConst6 => "PUSH_CONST_6",
        Instruction::PushConst7 => "PUSH_CONST_7",
        Instruction::PushConstFm1 => "PUSH_CONST_FM1",
        Instruction::PushConstF0 => "PUSH_CONST_F0",
        Instruction::PushConstF1 => "PUSH_CONST_F1",
        Instruction::PushConstF2 => "PUSH_CONST_F2",
        Instruction::PushConstF3 => "PUSH_CONST_F3",
        Instruction::PushConstF4 => "PUSH_CONST_F4",
        Instruction::PushConstF5 => "PUSH_CONST_F5",
        Instruction::PushConstF6 => "PUSH_CONST_F6",
        Instruction::PushConstF7 => "PUSH_CONST_F7",
        Instruction::BitTest => "BITTEST",
    }
}

/// The bytes of the string table from `from` up to the first zero byte, or
/// up to the table's end where none follows.
pub open spec fn string_bytes_at(strings: Seq<u8>, from: nat) -> Seq<u8> {
    if from >= strings.len() {
        seq![]
    } else if nul_position(strings, from as int) < 0 {
        strings.subrange(from as int, strings.len() as int)
    } else {
        strings.subrange(from as int, nul_position(strings, from as int))
    }
}

/// The text of the string at `from`: its bytes decoded, or a marker where
/// they are not UTF-8.
pub open spec fn string_text(strings: Seq<u8>, from: nat) -> Seq<char> {
    let bytes = string_bytes_at(strings, from);
    if vstd::utf8::valid_utf8(bytes) {
        vstd::utf8::decode_utf8(bytes)
    } else {
        "<<ERROR STRING>>"@
    }
}

/// The text of the string at `from`.
fn string_at(strings: &[u8], from: u32) -> (r: String)
    ensures
        r@ == string_text(strings@, from as nat),
{
    let start = from as usize;
    if start >= strings.len() {
        assert(string_bytes_at(strings@, from as nat) =~= seq![]);
        proof {
            assert(vstd::utf8::valid_utf8(seq![])) by {
                reveal_with_fuel(vstd::utf8::valid_utf8, 1);
            }
        }
        return String::new();
    }
    let mut end = start;
    while end < strings.len() && strings[end] != 0
        invariant
            start <= end <= strings@.len(),
            start < strings@.len(),
            nul_position(strings@, start as int) == nul_position(strings@, end as int),
        decreases strings@.len() - end,
    {
        end = end + 1;
    }
    let bytes = &strings[start..end];
    assert(bytes@ =~= string_bytes_at(strings@, from as nat));
    match str_from_utf8(bytes) {
        Some(s) => String::from_str(s),
        None => String::from_str("<<ERROR STRING>>"),
    }
}

/// A float renderer that can be called on any bits and gives one text for
/// the same bits.
pub open spec fn renders_floats<F: Fn(u32) -> String>(f: F) -> bool {
    &&& forall|bits: u32| call_requires(f, (bits,))
    &&& forall|bits: u32, a: String, b: String|
        call_ensures(f, (bits,), a) && call_ensures(f, (bits,), b) ==> a@ == b@
}

/// The text a float renderer gives for each float's bits.
pub open spec fn rendered<F: Fn(u32) -> String>(f: F) -> spec_fn(u32) -> Seq<char> {
    |bits: u32| (choose|t: String| call_ensures(f, (bits,), t))@
}

/// The operands of an instruction as they follow its mnemonic, each after
/// a space: numbers in decimal, floats as `float_text` renders them, jump
/// targets by their labels, a function's name in quotes, and for `STRING`
/// the text of the string that the last constant points at.
pub open spec fn operands(
    instruction: Instruction,
    labels: Map<usize, Seq<char>>,
    strings: Seq<u8>,
    last_constant: u32,
    float_text: spec_fn(u32) -> Seq<char>,
) -> Seq<char> {
    match instruction {
        Instruction::PushConstU8 { c1 } => seq![' '] + decimal(c1 as nat),
        Instruction::PushConstU8U8 { c1, c2 } => seq![' '] + decimal(c1 as nat) + seq![' '] + decimal(c2 as nat),
        Instruction::PushConstU8U8U8 { c1, c2, c3 } => seq![' '] + decimal(c1 as nat) + seq![' '] + decimal(c2 as nat) + seq![' '] + decimal(c3 as nat),
        Instruction::PushConstU32 { c1 } => seq![' '] + decimal(c1 as nat),
        Instruction::NativeCall { arg_count, return_count, native_index } => seq![' '] + decimal(arg_count as nat) + seq![' '] + decimal(return_count as nat) + seq![' '] + decimal(native_index as nat),
        Instruction::Leave { parameter_count, return_count } => seq![' '] + decimal(parameter_count as nat) + seq![' '] + decimal(return_count as nat),
        Instruction::ArrayU8 { item_size } => seq![' '] + decimal(item_size as nat),
        Instruction::ArrayU8Load { item_size } => seq![' '] + decimal(item_size as nat),
        Instruction::ArrayU8Store { item_size } => seq![' '] + decimal(item_size as nat),
        Instruction::LocalU8 { offset } => seq![' '] + decimal(offset as nat),
        Instruction::LocalU8Load { offset } => seq![' '] + decimal(offset as nat),
        Instruction::LocalU8Store { offset } => seq![' '] + decimal(offset as nat),
        Instruction::StaticU8 { static_index } => seq![' '] + decimal(static_index as nat),
        Instruction::StaticU8Load { static_index } => seq![' '] + decimal(static_index as nat),
        Instruction::StaticU8Store { static_index } => seq![' '] + decimal(static_index as nat),
        Instruction::AddU8 { value } => seq![' '] + decimal(value as nat),
        Instruction::MultiplyU8 { value } => seq![' '] + decimal(value as nat),
        Instruction::OffsetU8 { offset } => seq![' '] + decimal(offset as nat),
        Instruction::OffsetU8Load { offset } => seq![' '] + decimal(offset as nat),
        Instruction::OffsetU8Store { offset } => seq![' '] + decimal(offset as nat),
        Instruction::PushConstS16 { c1 } => seq![' '] + signed_decimal(c1 as int),
        Instruction::AddS16 { value } => seq![' '] + signed_decimal(value as int),
        Instruction::MultiplyS16 { value } => seq![' '] + signed_decimal(value as int),
        Instruction::OffsetS16 { offset } => seq![' '] + signed_decimal(offset as int),
        Instruction::OffsetS16Load { offset } => seq![' '] + signed_decimal(offset as int),
        Instruction::OffsetS16Store { offset } => seq![' '] + signed_decimal(offset as int),
        Instruction::ArrayU16 { item_size } => seq![' '] + decimal(item_size as nat),
        Instruction::ArrayU16Load { item_size } => seq![' '] + decimal(item_size as nat),
        Instruction::ArrayU16Store { item_size } => seq![' '] + decimal(item_size as nat),
        Instruction::LocalU16 { local_index } => seq![' '] + decimal(local_index as nat),
        Instruction::LocalU16Load { local_index } => seq![' '] + decimal(local_index as nat),
        Instruction::LocalU16Store { local_index } => seq![' '] + decimal(local_index as nat),
        Instruction::StaticU16 { static_index } => seq![' '] + decimal(static_index as nat),
        Instruction::StaticU16Load { static_index } => seq![' '] + decimal(static_index as nat),
        Instruction::StaticU16Store { static_index } => seq![' '] + decimal(static_index as nat),
        Instruction::GlobalU16 { global_index } => seq![' '] + decimal(global_index as nat),
        Instruction::GlobalU16Load { global_index } => seq![' '] + decimal(global_index as nat),
        Instruction::GlobalU16Store { global_index } => seq![' '] + decimal(global_index as nat),
        Instruction::StaticU24 { static_index } => seq![' '] + decimal(static_index as nat),
        Instruction::StaticU24Load { static_index } => seq![' '] + decimal(static_index as nat),
        Instruction::StaticU24Store { static_index } => seq![' '] + decimal(static_index as nat),
        Instruction::GlobalU24 { global_index } => seq![' '] + decimal(global_index as nat),
        Instruction::GlobalU24Load { global_index } => seq![' '] + decimal(global_index as nat),
        Instruction::GlobalU24Store { global_index } => seq![' '] + decimal(global_index as nat),
        Instruction::PushConstU24 { c1 } => seq![' '] + decimal(c1 as nat),
        Instruction::TextLabelAssignString { buffer_size } => seq![' '] + decimal(buffer_size as nat),
        Instruction::TextLabelAssignInt { buffer_size } => seq![' '] + decimal(buffer_size as nat),
        Instruction::TextLabelAppendString { buffer_size } => seq![' '] + decimal(buffer_size as nat),
        Instruction::TextLabelAppendInt { buffer_size } => seq![' '] + decimal(buffer_size as nat),
        Instruction::PushConstFloat { c1 } => seq![' '] + float_text(c1),
        Instruction::Enter { arg_count, frame_size, name } => seq![' '] + decimal(arg_count as nat)
            + seq![' '] + decimal(frame_size as nat) + match name {
            Some(n) => seq![' ', '"'] + n@ + seq!['"'],
            None => seq![],
        },
        Instruction::String => seq![' ', ';', ' ', '"'] + string_text(strings, last_constant as nat)
            + seq!['"'],
        _ => match jump_target(instruction) {
            Some(location) => seq![' '] + labels[location as usize],
            None => seq![],
        },
    }
}

/// Whether every label that an instruction's operands name exists.
pub open spec fn targets_labeled(instruction: Instruction, labels: Map<usize, Seq<char>>) -> bool {
    &&& jump_target(instruction) matches Some(location) ==> labels.contains_key(location as usize)
    &&& instruction matches Instruction::Switch { cases } ==> forall|j: int|
        0 <= j < cases@.len() ==> labels.contains_key((#[trigger] cases@[j]).location as usize)
}

/// The constant that a following `STRING` reads its string at: the last
/// integer pushed, zero again after a `STRING`.
pub open spec fn next_constant(instruction: Instruction, last: u32) -> u32 {
    match instruction {
        Instruction::PushConstU8 { c1 } => c1 as u32,
        Instruction::PushConstU8U8 { c2, .. } => c2 as u32,
        Instruction::PushConstU8U8U8 { c3, .. } => c3 as u32,
        Instruction::PushConstU32 { c1 } => c1,
        Instruction::PushConstS16 { c1 } => c1 as u32,
        Instruction::PushConstU24 { c1 } => c1,
        Instruction::String => 0,
        _ => last,
    }
}

/// The constant that a following `STRING` reads its string at.
pub fn next_constant_of(instruction: &Instruction, last: u32) -> (r: u32)
    ensures
        r == next_constant(*instruction, last),
{
    match instruction {
        Instruction::PushConstU8 { c1 } => *c1 as u32,
        Instruction::PushConstU8U8 { c2, .. } => *c2 as u32,
        Instruction::PushConstU8U8U8 { c3, .. } => *c3 as u32,
        Instruction::PushConstU32 { c1 } => *c1,
        Instruction::PushConstS16 { c1 } => *c1 as u32,
        Instruction::PushConstU24 { c1 } => *c1,
        Instruction::String => 0,
        _ => last,
    }
}

/// Appends the mnemonic and the operands of an instruction.
pub fn push_instruction_text<F: Fn(u32) -> String>(
    line: &mut String,
    instruction: &Instruction,
    labels: &HashMap<usize, String>,
    strings: &[u8],
    last_constant: u32,
    float_text: &F,
)
    requires
        targets_labeled(*instruction, label_view(labels@)),
        renders_floats(*float_text),
    ensures
        final(line)@ == old(line)@ + mnemonic(*instruction) + operands(
            *instruction,
            label_view(labels@),
            strings@,
            last_constant,
            rendered(*float_text),
        ),
{
    line.append(mnemonic_str(instruction));
    let ghost mid = line@;
    push_operands(line, instruction, labels, strings, last_constant, float_text);
    assert(line@ =~= old(line)@ + mnemonic(*instruction) + operands(
        *instruction,
        label_view(labels@),
        strings@,
        last_constant,
        rendered(*float_text),
    ));
}

/// Appends the operands of an instruction.
#[verifier::rlimit(40)]
fn push_operands<F: Fn(u32) -> String>(
    line: &mut String,
    instruction: &Instruction,
    labels: &HashMap<usize, String>,
    strings: &[u8],
    last_constant: u32,
    float_text: &F,
)
    requires
        targets_labeled(*instruction, label_view(labels@)),
        renders_floats(*float_text),
    ensures
        final(line)@ == old(line)@ + operands(
            *instruction,
            label_view(labels@),
            strings@,
            last_constant,
            rendered(*float_text),
        ),
{
    match instruction {
        Instruction::PushConstU8 { c1 } => {
            string_push(line, ' ');
            push_decimal(line, *c1 as u64);
            assert(line@ =~= old(line)@ + operands(*instruction, label_view(labels@), strings@, last_constant, rendered(*float_text)));
        },
        Instruction::PushConstU8U8 { c1, c2 } => {
            string_push(line, ' ');
            push_decimal(line, *c1 as u64);
            string_push(line, ' ');
            push_decimal(line, *c2 as u64);
            assert(line@ =~= old(line)@ + operands(*instruction, label_view(labels@), strings@, last_constant, rendered(*float_text)));
        },
        Instruction::PushConstU8U8U8 { c1, c2, c3 } => {
            string_push(line, ' ');
            push_decimal(line, *c1 as u64);
            string_push(line, ' ');
            push_decimal(line, *c2 as u64);
            string_push(line, ' ');
            push_decimal(line, *c3 as u64);
            assert(line@ =~= old(line)@ + operands(*instruction, label_view(labels@), strings@, last_constant, rendered(*float_text)));
        },
        Instruction::PushConstU32 { c1 } => {
            string_push(line, ' ');
            push_decimal(line, *c1 as u64);
            assert(line@ =~= old(line)@ + operands(*instruction, label_view(labels@), strings@, last_constant, rendered(*float_text)));
        },
        Instruction::NativeCall { arg_count, return_count, native_index } => {
            string_push(line, ' ');
            push_decimal(line, *arg_count as u64);
            string_push(line, ' ');
            push_decimal(line, *return_count as u64);
            string_push(line, ' ');
            push_decimal(line, *native_index as u64);
            assert(line@ =~= old(line)@ + operands(*instruction, label_view(labels@), strings@, last_constant, rendered(*float_text)));
        },
        Instruction::Leave { parameter_count, return_count } => {
            string_push(line, ' ');
            push_decimal(line, *parameter_count as u64);
            string_push(line, ' ');
            push_decimal(line, *return_count as u64);
            assert(line@ =~= old(line)@ + operands(*instruction, label_view(labels@), strings@, last_constant, rendered(*float_text)));
        },
        Instruction::ArrayU8 { item_size } => {
            string_push(line, ' ');
            push_decimal(line, *item_size as u64);
            assert(line@ =~= old(line)@ + operands(*instruction, label_view(labels@), strings@, last_constant, rendered(*float_text)));
        },
        Instruction::ArrayU8Load { item_size } => {
            string_push(line, ' ');
            push_decimal(line, *item_size as u64);
            assert(line@ =~= old(line)@ + operands(*instruction, label_view(labels@), strings@, last_constant, rendered(*float_text)));
        },
        Instruction::ArrayU8Store { item_size } => {
            string_push(line, ' ');
            push_decimal(line, *item_size as u64);
            assert(line@ =~= old(line)@ + operands(*instruction, label_view(labels@), strings@, last_constant, rendered(*float_text)));
        },
        Instruction::LocalU8 { offset } => {
            string_push(line, ' ');
            push_decimal(line, *offset as u64);
            assert(line@ =~= old(line)@ + operands(*instruction, label_view(labels@), strings@, last_constant, rendered(*float_text)));
        },
        Instruction::LocalU8Load { offset } => {
            string_push(line, ' ');
            push_decimal(line, *offset as u64);
            assert(line@ =~= old(line)@ + operands(*instruction, label_view(labels@), strings@, last_constant, rendered(*float_text)));
        },
        Instruction::LocalU8Store { offset } => {
            string_push(line, ' ');
            push_decimal(line, *offset as u64);
            assert(line@ =~= old(line)@ + operands(*instruction, label_view(labels@), strings@, last_constant, rendered(*float_text)));
        },
        Instruction::StaticU8 { static_index } => {
            string_push(line, ' ');
            push_decimal(line, *static_index as u64);
            assert(line@ =~= old(line)@ + operands(*instruction, label_view(labels@), strings@, last_constant, rendered(*float_text)));
        },
        Instruction::StaticU8Load { static_index } => {
            string_push(line, ' ');
            push_decimal(line, *static_index as u64);
            assert(line@ =~= old(line)@ + operands(*instruction, label_view(labels@), strings@, last_constant, rendered(*float_text)));
        },
        Instruction::StaticU8Store { static_index } => {
            string_push(line, ' ');
            push_decimal(line, *static_index as u64);
            assert(line@ =~= old(line)@ + operands(*instruction, label_view(labels@), strings@, last_constant, rendered(*float_text)));
        },
        Instruction::AddU8 { value } => {
            string_push(line, ' ');
            push_decimal(line, *value as u64);
            assert(line@ =~= old(line)@ + operands(*instruction, label_view(labels@), strings@, last_constant, rendered(*float_text)));
        },
        Instruction::MultiplyU8 { value } => {
            string_push(line, ' ');
            push_decimal(line, *value as u64);
            assert(line@ =~= old(line)@ + operands(*instruction, label_view(labels@), strings@, last_constant, rendered(*float_text)));
        },
        Instruction::OffsetU8 { offset } => {
            string_push(line, ' ');
            push_decimal(line, *offset as u64);
            assert(line@ =~= old(line)@ + operands(*instruction, label_view(labels@), strings@, last_constant, rendered(*float_text)));
        },
        Instruction::OffsetU8Load { offset } => {
            string_push(line, ' ');
            push_decimal(line, *offset as u64);
            assert(line@ =~= old(line)@ + operands(*instruction, label_view(labels@), strings@, last_constant, rendered(*float_text)));
        },
        Instruction::OffsetU8Store { offset } => {
            string_push(line, ' ');
            push_decimal(line, *offset as u64);
            assert(line@ =~= old(line)@ + operands(*instruction, label_view(labels@), strings@, last_constant, rendered(*float_text)));
        },
        Instruction::PushConstS16 { c1 } => {
            string_push(line, ' ');
            push_signed_decimal(line, *c1 as i64);
            assert(line@ =~= old(line)@ + operands(*instruction, label_view(labels@), strings@, last_constant, rendered(*float_text)));
        },
        Instruction::AddS16 { value } => {
            string_push(line, ' ');
            push_signed_decimal(line, *value as i64);
            assert(line@ =~= old(line)@ + operands(*instruction, label_view(labels@), strings@, last_constant, rendered(*float_text)));
        },
        Instruction::MultiplyS16 { value } => {
            string_push(line, ' ');
            push_signed_decimal(line, *value as i64);
            assert(line@ =~= old(line)@ + operands(*instruction, label_view(labels@), strings@, last_constant, rendered(*float_text)));
        },
        Instruction::OffsetS16 { offset } => {
            string_push(line, ' ');
            push_signed_decimal(line, *offset as i64);
            assert(line@ =~= old(line)@ + operands(*instruction, label_view(labels@), strings@, last_constant, rendered(*float_text)));
        },
        Instruction::OffsetS16Load { offset } => {
            string_push(line, ' ');
            push_signed_decimal(line, *offset as i64);
            assert(line@ =~= old(line)@ + operands(*instruction, label_view(labels@), strings@, last_constant, rendered(*float_text)));
        },
        Instruction::OffsetS16Store { offset } => {
            string_push(line, ' ');
            push_signed_decimal(line, *offset as i64);
            assert(line@ =~= old(line)@ + operands(*instruction, label_view(labels@), strings@, last_constant, rendered(*float_text)));
        },
        Instruction::ArrayU16 { item_size } => {
            string_push(line, ' ');
            push_decimal(line, *item_size as u64);
            assert(line@ =~= old(line)@ + operands(*instruction, label_view(labels@), strings@, last_constant, rendered(*float_text)));
        },
        Instruction::ArrayU16Load { item_size } => {
            string_push(line, ' ');
            push_decimal(line, *item_size as u64);
            assert(line@ =~= old(line)@ + operands(*instruction, label_view(labels@), strings@, last_constant, rendered(*float_text)));
        },
        Instruction::ArrayU16Store { item_size } => {
            string_push(line, ' ');
            push_decimal(line, *item_size as u64);
            assert(line@ =~= old(line)@ + operands(*instruction, label_view(labels@), strings@, last_constant, rendered(*float_text)));
        },
        Instruction::LocalU16 { local_index } => {
            string_push(line, ' ');
            push_decimal(line, *local_index as u64);
            assert(line@ =~= old(line)@ + operands(*instruction, label_view(labels@), strings@, last_constant, rendered(*float_text)));
        },
        Instruction::LocalU16Load { local_index } => {
            string_push(line, ' ');
            push_decimal(line, *local_index as u64);
            assert(line@ =~= old(line)@ + operands(*instruction, label_view(labels@), strings@, last_constant, rendered(*float_text)));
        },
        Instruction::LocalU16Store { local_index } => {
            string_push(line, ' ');
            push_decimal(line, *local_index as u64);
            assert(line@ =~= old(line)@ + operands(*instruction, label_view(labels@), strings@, last_constant, rendered(*float_text)));
        },
        Instruction::StaticU16 { static_index } => {
            string_push(line, ' ');
            push_decimal(line, *static_index as u64);
            assert(line@ =~= old(line)@ + operands(*instruction, label_view(labels@), strings@, last_constant, rendered(*float_text)));
        },
        Instruction::StaticU16Load { static_index } => {
            string_push(line, ' ');
            push_decimal(line, *static_index as u64);
            assert(line@ =~= old(line)@ + operands(*instruction, label_view(labels@), strings@, last_constant, rendered(*float_text)));
        },
        Instruction::StaticU16Store { static_index } => {
            string_push(line, ' ');
            push_decimal(line, *static_index as u64);
            assert(line@ =~= old(line)@ + operands(*instruction, label_view(labels@), strings@, last_constant, rendered(*float_text)));
        },
        Instruction::GlobalU16 { global_index } => {
            string_push(line, ' ');
            push_decimal(line, *global_index as u64);
            assert(line@ =~= old(line)@ + operands(*instruction, label_view(labels@), strings@, last_constant, rendered(*float_text)));
        },
        Instruction::GlobalU16Load { global_index } => {
            string_push(line, ' ');
            push_decimal(line, *global_index as u64);
            assert(line@ =~= old(line)@ + operands(*instruction, label_view(labels@), strings@, last_constant, rendered(*float_text)));
        },
        Instruction::GlobalU16Store { global_index } => {
            string_push(line, ' ');
            push_decimal(line, *global_index as u64);
            assert(line@ =~= old(line)@ + operands(*instruction, label_view(labels@), strings@, last_constant, rendered(*float_text)));
        },
        Instruction::StaticU24 { static_index } => {
            string_push(line, ' ');
            push_decimal(line, *static_index as u64);
            assert(line@ =~= old(line)@ + operands(*instruction, label_view(labels@), strings@, last_constant, rendered(*float_text)));
        },
        Instruction::StaticU24Load { static_index } => {
            string_push(line, ' ');
            push_decimal(line, *static_index as u64);
            assert(line@ =~= old(line)@ + operands(*instruction, label_view(labels@), strings@, last_constant, rendered(*float_text)));
        },
        Instruction::StaticU24Store { static_index } => {
            string_push(line, ' ');
            push_decimal(line, *static_index as u64);
            assert(line@ =~= old(line)@ + operands(*instruction, label_view(labels@), strings@, last_constant, rendered(*float_text)));
        },
        Instruction::GlobalU24 { global_index } => {
            string_push(line, ' ');
            push_decimal(line, *global_index as u64);
            assert(line@ =~= old(line)@ + operands(*instruction, label_view(labels@), strings@, last_constant, rendered(*float_text)));
        },
        Instruction::GlobalU24Load { global_index } => {
            string_push(line, ' ');
            push_decimal(line, *global_index as u64);
            assert(line@ =~= old(line)@ + operands(*instruction, label_view(labels@), strings@, last_constant, rendered(*float_text)));
        },
        Instruction::GlobalU24Store { global_index } => {
            string_push(line, ' ');
            push_decimal(line, *global_index as u64);
            assert(line@ =~= old(line)@ + operands(*instruction, label_view(labels@), strings@, last_constant, rendered(*float_text)));
        },
        Instruction::PushConstU24 { c1 } => {
            string_push(line, ' ');
            push_decimal(line, *c1 as u64);
            assert(line@ =~= old(line)@ + operands(*instruction, label_view(labels@), strings@, last_constant, rendered(*float_text)));
        },
        Instruction::TextLabelAssignString { buffer_size } => {
            string_push(line, ' ');
            push_decimal(line, *buffer_size as u64);
            assert(line@ =~= old(line)@ + operands(*instruction, label_view(labels@), strings@, last_constant, rendered(*float_text)));
        },
        Instruction::TextLabelAssignInt { buffer_size } => {
            string_push(line, ' ');
            push_decimal(line, *buffer_size as u64);
            assert(line@ =~= old(line)@ + operands(*instruction, label_view(labels@), strings@, last_constant, rendered(*float_text)));
        },
        Instruction::TextLabelAppendString { buffer_size } => {
            string_push(line, ' ');
            push_decimal(line, *buffer_size as u64);
            assert(line@ =~= old(line)@ + operands(*instruction, label_view(labels@), strings@, last_constant, rendered(*float_text)));
        },
        Instruction::TextLabelAppendInt { buffer_size } => {
            string_push(line, ' ');
            push_decimal(line, *buffer_size as u64);
            assert(line@ =~= old(line)@ + operands(*instruction, label_view(labels@), strings@, last_constant, rendered(*float_text)));
        },
        Instruction::PushConstFloat { c1 } => {
            string_push(line, ' ');
            let text = float_text(*c1);
            proof {
                let chosen = choose|t: String| call_ensures(*float_text, (*c1,), t);
                assert(call_ensures(*float_text, (*c1,), chosen));
                assert(text@ == rendered(*float_text)(*c1));
            }
            line.append(text.as_str());
            assert(line@ =~= old(line)@ + operands(*instruction, label_view(labels@), strings@, last_constant, rendered(*float_text)));
        },
        Instruction::Enter { arg_count, frame_size, name } => {
            string_push(line, ' ');
            push_decimal(line, *arg_count as u64);
            string_push(line, ' ');
            push_decimal(line, *frame_size as u64);
            match name {
                Some(n) => {
                    string_push(line, ' ');
                    string_push(line, '"');
                    line.append(n.as_str());
                    string_push(line, '"');
                },
                None => {},
            }
            assert(line@ =~= old(line)@ + operands(*instruction, label_view(labels@), strings@, last_constant, rendered(*float_text)));
        },
        Instruction::String => {
            string_push(line, ' ');
            string_push(line, ';');
            string_push(line, ' ');
            string_push(line, '"');
            let text = string_at(strings, last_constant);
            line.append(text.as_str());
            string_push(line, '"');
            assert(line@ =~= old(line)@ + operands(*instruction, label_view(labels@), strings@, last_constant, rendered(*float_text)));
        },
        Instruction::Jump { location }
        | Instruction::JumpZero { location }
        | Instruction::IfEqualJumpZero { location }
        | Instruction::IfNotEqualJumpZero { location }
        | Instruction::IfGreaterThanJumpZero { location }
        | Instruction::IfGreaterOrEqualJumpZero { location }
        | Instruction::IfLowerThanJumpZero { location }
        | Instruction::IfLowerOrEqualJumpZero { location }
        | Instruction::FunctionCall { location } => {
            string_push(line, ' ');
            let label = labels.get(&(*location as usize)).unwrap();
            line.append(label.as_str());
            assert(line@ =~= old(line)@ + operands(*instruction, label_view(labels@), strings@, last_constant, rendered(*float_text)));
        },
        _ => {
            assert(line@ =~= old(line)@ + operands(*instruction, label_view(labels@), strings@, last_constant, rendered(*float_text)));
        },
    }
}

/// The opcode an instruction is encoded with.
pub open spec fn opcode_of(instruction: Instruction) -> Opcode {
    match instruction {
        Instruction::Nop => Opcode::Nop,
        Instruction::IntegerAdd => Opcode::IntegerAdd,
        Instruction::IntegerSubtract => Opcode::IntegerSubtract,
        Instruction::IntegerMultiply => Opcode::IntegerMultiply,
        Instruction::IntegerDivide => Opcode::IntegerDivide,
        Instruction::IntegerModulo => Opcode::IntegerModulo,
        Instruction::IntegerNot => Opcode::IntegerNot,
        Instruction::IntegerNegate => Opcode::IntegerNegate,
        Instruction::IntegerEquals => Opcode::IntegerEquals,
        Instruction::IntegerNotEquals => Opcode::IntegerNotEquals,
        Instruction::IntegerGreaterThan => Opcode::IntegerGreaterThan,
        Instruction::IntegerGreaterOrEqual => Opcode::IntegerGreaterOrEqual,
        Instruction::IntegerLowerThan => Opcode::IntegerLowerThan,
        Instruction::IntegerLowerOrEqual => Opcode::IntegerLowerOrEqual,
        Instruction::FloatAdd => Opcode::FloatAdd,
        Instruction::FloatSubtract => Opcode::FloatSubtract,
        Instruction::FloatMultiply => Opcode::FloatMultiply,
        Instruction::FloatDivide => Opcode::FloatDivide,
        Instruction::FloatModule => Opcode::FloatModule,
        Instruction::FloatNegate => Opcode::FloatNegate,
        Instruction::FloatEquals => Opcode::FloatEquals,
        Instruction::FloatNotEquals => Opcode::FloatNotEquals,
        Instruction::FloatGreaterThan => Opcode::FloatGreaterThan,
        Instruction::FloatGreaterOrEqual => Opcode::FloatGreaterOrEqual,
        Instruction::FloatLowerThan => Opcode::FloatLowerThan,
        Instruction::FloatLowerOrEqual => Opcode::FloatLowerOrEqual,
        Instruction::VectorAdd => Opcode::VectorAdd,
        Instruction::VectorSubtract => Opcode::VectorSubtract,
        Instruction::VectorMultiply => Opcode::VectorMultiply,
        Instruction::VectorDivide => Opcode::VectorDivide,
        Instruction::VectorNegate => Opcode::VectorNegate,
        Instruction::BitwiseAnd => Opcode::BitwiseAnd,
        Instruction::BitwiseOr => Opcode::BitwiseOr,
        Instruction::BitwiseXor => Opcode::BitwiseXor,
        Instruction::IntegerToFloat => Opcode::IntegerToFloat,
        Instruction::FloatToInteger => Opcode::FloatToInteger,
        Instruction::FloatToVector => Opcode::FloatToVector,
        Instruction::PushConstU8 { .. } => Opcode::PushConstU8,
        Instruction::PushConstU8U8 { .. } => Opcode::PushConstU8U8,
        Instruction::PushConstU8U8U8 { .. } => Opcode::PushConstU8U8U8,
        Instruction::PushConstU32 { .. } => Opcode::PushConstU32,
        Instruction::PushConstFloat { .. } => Opcode::PushConstFloat,
        Instruction::Dup => Opcode::Dup,
        Instruction::Drop => Opcode::Drop,
        Instruction::NativeCall { .. } => Opcode::NativeCall,
        Instruction::Enter { .. } => Opcode::Enter,
        Instruction::Leave { .. } => Opcode::Leave,
        Instruction::Load => Opcode::Load,
        Instruction::Store => Opcode::Store,
        Instruction::StoreRev => Opcode::StoreRev,
        Instruction::LoadN => Opcode::LoadN,
        Instruction::StoreN => Opcode::StoreN,
        Instruction::ArrayU8 { .. } => Opcode::ArrayU8,
        Instruction::ArrayU8Load { .. } => Opcode::ArrayU8Load,
        Instruction::ArrayU8Store { .. } => Opcode::ArrayU8Store,
        Instruction::LocalU8 { .. } => Opcode::LocalU8,
        Instruction::LocalU8Load { .. } => Opcode::LocalU8Load,
        Instruction::LocalU8Store { .. } => Opcode::LocalU8Store,
        Instruction::StaticU8 { .. } => Opcode::StaticU8,
        Instruction::StaticU8Load { .. } => Opcode::StaticU8Load,
        Instruction::StaticU8Store { .. } => Opcode::StaticU8Store,
        Instruction::AddU8 { .. } => Opcode::AddU8,
        Instruction::MultiplyU8 { .. } => Opcode::MultiplyU8,
        Instruction::Offset => Opcode::Offset,
        Instruction::OffsetU8 { .. } => Opcode::OffsetU8,
        Instruction::OffsetU8Load { .. } => Opcode::OffsetU8Load,
        Instruction::OffsetU8Store { .. } => Opcode::OffsetU8Store,
        Instruction::PushConstS16 { .. } => Opcode::PushConstS16,
        Instruction::AddS16 { .. } => Opcode::AddS16,
        Instruction::MultiplyS16 { .. } => Opcode::MultiplyS16,
        Instruction::OffsetS16 { .. } => Opcode::OffsetS16,
        Instruction::OffsetS16Load { .. } => Opcode::OffsetS16Load,
        Instruction::OffsetS16Store { .. } => Opcode::OffsetS16Store,
        Instruction::ArrayU16 { .. } => Opcode::ArrayU16,
        Instruction::ArrayU16Load { .. } => Opcode::ArrayU16Load,
        Instruction::ArrayU16Store { .. } => Opcode::ArrayU16Store,
        Instruction::LocalU16 { .. } => Opcode::LocalU16,
        Instruction::LocalU16Load { .. } => Opcode::LocalU16Load,
        Instruction::LocalU16Store { .. } => Opcode::LocalU16Store,
        Instruction::StaticU16 { .. } => Opcode::StaticU16,
        Instruction::StaticU16Load { .. } => Opcode::StaticU16Load,
        Instruction::StaticU16Store { .. } => Opcode::StaticU16Store,
        Instruction::GlobalU16 { .. } => Opcode::GlobalU16,
        Instruction::GlobalU16Load { .. } => Opcode::GlobalU16Load,
        Instruction::GlobalU16Store { .. } => Opcode::GlobalU16Store,
        Instruction::Jump { .. } => Opcode::Jump,
        Instruction::JumpZero { .. } => Opcode::JumpZero,
        Instruction::IfEqualJumpZero { .. } => Opcode::IfEqualJump,
        Instruction::IfNotEqualJumpZero { .. } => Opcode::IfNotEqualJump,
        Instruction::IfGreaterThanJumpZero { .. } => Opcode::IfGreaterThanJump,
        Instruction::IfGreaterOrEqualJumpZero { .. } => Opcode::IfGreaterOrEqualJump,
        Instruction::IfLowerThanJumpZero { .. } => Opcode::IfLowerThanJump,
        Instruction::IfLowerOrEqualJumpZero { .. } => Opcode::IfLowerOrEqualJump,
        Instruction::FunctionCall { .. } => Opcode::FunctionCall,
        Instruction::StaticU24 { .. } => Opcode::StaticU24,
        Instruction::StaticU24Load { .. } => Opcode::StaticU24Load,
        Instruction::StaticU24Store { .. } => Opcode::StaticU24Store,
        Instruction::GlobalU24 { .. } => Opcode::GlobalU24,
        Instruction::GlobalU24Load { .. } => Opcode::GlobalU24Load,
        Instruction::GlobalU24Store { .. } => Opcode::GlobalU24Store,
        Instruction::PushConstU24 { .. } => Opcode::PushConstU24,
        Instruction::Switch { .. } => Opcode::Switch,
        Instruction::String => Opcode::String,
        Instruction::StringHash => Opcode::StringHash,
        Instruction::TextLabelAssignString { .. } => Opcode::TextLabelAssignString,
        Instruction::TextLabelAssignInt { .. } => Opcode::TextLabelAssignInt,
        Instruction::TextLabelAppendString { .. } => Opcode::TextLabelAppendString,
        Instruction::TextLabelAppendInt { .. } => Opcode::TextLabelAppendInt,
        Instruction::TextLabelCopy => Opcode::TextLabelCopy,
        Instruction::Catch => Opcode::Catch,
        Instruction::Throw => Opcode::Throw,
        Instruction::CallIndirect => Opcode::CallIndirect,
        Instruction::PushConstM1 => Opcode::PushConstM1,
        Instruction::PushConst0 => Opcode::PushConst0,
        Instruction::PushConst1 => Opcode::PushConst1,
        Instruction::PushConst2 => Opcode::PushConst2,
        Instruction::PushConst3 => Opcode::PushConst3,
        Instruction::PushConst4 => Opcode::PushConst4,
        Instruction::PushConst5 => Opcode::PushConst5,
        Instruction::PushConst6 => Opcode::PushConst6,
        Instruction::PushConst7 => Opcode::PushConst7,
        Instruction::PushConstFm1 => Opcode::PushConstFm1,
        Instruction::PushConstF0 => Opcode::PushConstF0,
        Instruction::PushConstF1 => Opcode::PushConstF1,
        Instruction::PushConstF2 => Opcode::PushConstF2,
        Instruction::PushConstF3 => Opcode::PushConstF3,
        Instruction::PushConstF4 => Opcode::PushConstF4,
        Instruction::PushConstF5 => Opcode::PushConstF5,
        Instruction::PushConstF6 => Opcode::PushConstF6,
        Instruction::PushConstF7 => Opcode::PushConstF7,
        Instruction::BitTest => Opcode::BitTest,
    }
}

/// The opcode of the instruction set whose name is `name`, if any.
pub open spec fn opcode_named(name: Seq<char>) -> Option<Opcode> {
    if name.len() == 1 {
        if name[0] == 'J' {
            Some(Opcode::Jump)
        } else {
            None
        }
    } else if name.len() == 2 {
        if name[0] == 'J' && name[1] == 'Z' {
            Some(Opcode::JumpZero)
        } else {
            None
        }
    } else if name.len() == 3 {
        if name[0] == 'N' && name[1] == 'O' && name[2] == 'P' {
            Some(Opcode::Nop)
        } else if name[0] == 'I' && name[1] == 'E' && name[2] == 'Q' {
            Some(Opcode::IntegerEquals)
        } else if name[0] == 'I' && name[1] == 'N' && name[2] == 'E' {
            Some(Opcode::IntegerNotEquals)
        } else if name[0] == 'I' && name[1] == 'G' && name[2] == 'T' {
            Some(Opcode::IntegerGreaterThan)
        } else if name[0] == 'I' && name[1] == 'G' && name[2] == 'E' {
            Some(Opcode::IntegerGreaterOrEqual)
        } else if name[0] == 'I' && name[1] == 'L' && name[2] == 'T' {
            Some(Opcode::IntegerLowerThan)
        } else if name[0] == 'I' && name[1] == 'L' && name[2] == 'E' {
            Some(Opcode::IntegerLowerOrEqual)
        } else if name[0] == 'F' && name[1] == 'E' && name[2] == 'Q' {
            Some(Opcode::FloatEquals)
        } else if name[0] == 'F' && name[1] == 'N' && name[2] == 'E' {
            Some(Opcode::FloatNotEquals)
        } else if name[0] == 'F' && name[1] == 'G' && name[2] == 'T' {
            Some(Opcode::FloatGreaterThan)
        } else if name[0] == 'F' && name[1] == 'G' && name[2] == 'E' {
            Some(Opcode::FloatGreaterOrEqual)
        } else if name[0] == 'F' && name[1] == 'L' && name[2] == 'T' {
            Some(Opcode::FloatLowerThan)
        } else if name[0] == 'F' && name[1] == 'L' && name[2] == 'E' {
            Some(Opcode::FloatLowerOrEqual)
        } else if name[0] == 'I' && name[1] == 'O' && name[2] == 'R' {
            Some(Opcode::BitwiseOr)
        } else if name[0] == 'I' && name[1] == '2' && name[2] == 'F' {
            Some(Opcode::IntegerToFloat)
        } else if name[0] == 'F' && name[1] == '2' && name[2] == 'I' {
            Some(Opcode::FloatToInteger)
        } else if name[0] == 'F' && name[1] == '2' && name[2] == 'V' {
            Some(Opcode::FloatToVector)
        } else if name[0] == 'D' && name[1] == 'U' && name[2] == 'P' {
            Some(Opcode::Dup)
        } else {
            None
        }
    } else if name.len() == 4 {
        if name[0] == 'I' && name[1] == 'A' && name[2] == 'D' && name[3] == 'D' {
            Some(Opcode::IntegerAdd)
        } else if name[0] == 'I' && name[1] == 'S' && name[2] == 'U' && name[3] == 'B' {
            Some(Opcode::IntegerSubtract)
        } else if name[0] == 'I' && name[1] == 'M' && name[2] == 'U' && name[3] == 'L' {
            Some(Opcode::IntegerMultiply)
        } else if name[0] == 'I' && name[1] == 'D' && name[2] == 'I' && name[3] == 'V' {
            Some(Opcode::IntegerDivide)
        } else if name[0] == 'I' && name[1] == 'M' && name[2] == 'O' && name[3] == 'D' {
            Some(Opcode::IntegerModulo)
        } else if name[0] == 'I' && name[1] == 'N' && name[2] == 'O' && name[3] == 'T' {
            Some(Opcode::IntegerNot)
        } else if name[0] == 'I' && name[1] == 'N' && name[2] == 'E' && name[3] == 'G' {
            Some(Opcode::IntegerNegate)
        } else if name[0] == 'F' && name[1] == 'A' && name[2] == 'D' && name[3] == 'D' {
            Some(Opcode::FloatAdd)
        } else if name[0] == 'F' && name[1] == 'S' && name[2] == 'U' && name[3] == 'B' {
            Some(Opcode::FloatSubtract)
        } else if name[0] == 'F' && name[1] == 'M' && name[2] == 'U' && name[3] == 'L' {
            Some(Opcode::FloatMultiply)
        } else if name[0] == 'F' && name[1] == 'D' && name[2] == 'I' && name[3] == 'V' {
            Some(Opcode::FloatDivide)
        } else if name[0] == 'F' && name[1] == 'M' && name[2] == 'O' && name[3] == 'D' {
            Some(Opcode::FloatModule)
        } else if name[0] == 'F' && name[1] == 'N' && name[2] == 'E' && name[3] == 'G' {
            Some(Opcode::FloatNegate)
        } else if name[0] == 'V' && name[1] == 'A' && name[2] == 'D' && name[3] == 'D' {
            Some(Opcode::VectorAdd)
        } else if name[0] == 'V' && name[1] == 'S' && name[2] == 'U' && name[3] == 'B' {
            Some(Opcode::VectorSubtract)
        } else if name[0] == 'V' && name[1] == 'M' && name[2] == 'U' && name[3] == 'L' {
            Some(Opcode::VectorMultiply)
        } else if name[0] == 'V' && name[1] == 'D' && name[2] == 'I' && name[3] == 'V' {
            Some(Opcode::VectorDivide)
        } else if name[0] == 'V' && name[1] == 'N' && name[2] == 'E' && name[3] == 'G' {
            Some(Opcode::VectorNegate)
        } else if name[0] == 'I' && name[1] == 'A' && name[2] == 'N' && name[3] == 'D' {
            Some(Opcode::BitwiseAnd)
        } else if name[0] == 'I' && name[1] == 'X' && name[2] == 'O' && name[3] == 'R' {
            Some(Opcode::BitwiseXor)
        } else if name[0] == 'D' && name[1] == 'R' && name[2] == 'O' && name[3] == 'P' {
            Some(Opcode::Drop)
        } else if name[0] == 'L' && name[1] == 'O' && name[2] == 'A' && name[3] == 'D' {
            Some(Opcode::Load)
        } else if name[0] == 'C' && name[1] == 'A' && name[2] == 'L' && name[3] == 'L' {
            Some(Opcode::FunctionCall)
        } else {
            None
        }
    } else if name.len() == 5 {
        if name[0] == 'E' && name[1] == 'N' && name[2] == 'T' && name[3] == 'E' && name[4] == 'R' {
            Some(Opcode::Enter)
        } else if name[0] == 'L' && name[1] == 'E' && name[2] == 'A' && name[3] == 'V' && name[4] == 'E' {
            Some(Opcode::Leave)
        } else if name[0] == 'S' && name[1] == 'T' && name[2] == 'O' && name[3] == 'R' && name[4] == 'E' {
            Some(Opcode::Store)
        } else if name[0] == 'C' && name[1] == 'A' && name[2] == 'T' && name[3] == 'C' && name[4] == 'H' {
            Some(Opcode::Catch)
        } else if name[0] == 'T' && name[1] == 'H' && name[2] == 'R' && name[3] == 'O' && name[4] == 'W' {
            Some(Opcode::Throw)
        } else {
            None
        }
    } else if name.len() == 6 {
        if name[0] == 'N' && name[1] == 'A' && name[2] == 'T' && name[3] == 'I' && name[4] == 'V' && name[5] == 'E' {
            Some(Opcode::NativeCall)
        } else if name[0] == 'L' && name[1] == 'O' && name[2] == 'A' && name[3] == 'D' && name[4] == '_' && name[5] == 'N' {
            Some(Opcode::LoadN)
        } else if name[0] == 'I' && name[1] == 'E' && name[2] == 'Q' && name[3] == '_' && name[4] == 'J' && name[5] == 'Z' {
            Some(Opcode::IfEqualJump)
        } else if name[0] == 'I' && name[1] == 'N' && name[2] == 'E' && name[3] == '_' && name[4] == 'J' && name[5] == 'Z' {
            Some(Opcode::IfNotEqualJump)
        } else if name[0] == 'I' && name[1] == 'G' && name[2] == 'T' && name[3] == '_' && name[4] == 'J' && name[5] == 'Z' {
            Some(Opcode::IfGreaterThanJump)
        } else if name[0] == 'I' && name[1] == 'G' && name[2] == 'E' && name[3] == '_' && name[4] == 'J' && name[5] == 'Z' {
            Some(Opcode::IfGreaterOrEqualJump)
        } else if name[0] == 'I' && name[1] == 'L' && name[2] == 'T' && name[3] == '_' && name[4] == 'J' && name[5] == 'Z' {
            Some(Opcode::IfLowerThanJump)
        } else if name[0] == 'I' && name[1] == 'L' && name[2] == 'E' && name[3] == '_' && name[4] == 'J' && name[5] == 'Z' {
            Some(Opcode::IfLowerOrEqualJump)
        } else if name[0] == 'S' && name[1] == 'W' && name[2] == 'I' && name[3] == 'T' && name[4] == 'C' && name[5] == 'H' {
            Some(Opcode::Switch)
        } else if name[0] == 'S' && name[1] == 'T' && name[2] == 'R' && name[3] == 'I' && name[4] == 'N' && name[5] == 'G' {
            Some(Opcode::String)
        } else {
            None
        }
    } else if name.len() == 7 {
        if name[0] == 'S' && name[1] == 'T' && name[2] == 'O' && name[3] == 'R' && name[4] == 'E' && name[5] == '_' && name[6] == 'N' {
            Some(Opcode::StoreN)
        } else if name[0] == 'I' && name[1] == 'A' && name[2] == 'D' && name[3] == 'D' && name[4] == '_' && name[5] == 'U' && name[6] == '8' {
            Some(Opcode::AddU8)
        } else if name[0] == 'I' && name[1] == 'M' && name[2] == 'U' && name[3] == 'L' && name[4] == '_' && name[5] == 'U' && name[6] == '8' {
            Some(Opcode::MultiplyU8)
        } else if name[0] == 'I' && name[1] == 'O' && name[2] == 'F' && name[3] == 'F' && name[4] == 'S' && name[5] == 'E' && name[6] == 'T' {
            Some(Opcode::Offset)
        } else if name[0] == 'B' && name[1] == 'I' && name[2] == 'T' && name[3] == 'T' && name[4] == 'E' && name[5] == 'S' && name[6] == 'T' {
            Some(Opcode::BitTest)
        } else {
            None
        }
    } else if name.len() == 8 {
        if name[0] == 'A' && name[1] == 'R' && name[2] == 'R' && name[3] == 'A' && name[4] == 'Y' && name[5] == '_' && name[6] == 'U' && name[7] == '8' {
            Some(Opcode::ArrayU8)
        } else if name[0] == 'L' && name[1] == 'O' && name[2] == 'C' && name[3] == 'A' && name[4] == 'L' && name[5] == '_' && name[6] == 'U' && name[7] == '8' {
            Some(Opcode::LocalU8)
        } else if name[0] == 'I' && name[1] == 'A' && name[2] == 'D' && name[3] == 'D' && name[4] == '_' && name[5] == 'S' && name[6] == '1' && name[7] == '6' {
            Some(Opcode::AddS16)
        } else if name[0] == 'I' && name[1] == 'M' && name[2] == 'U' && name[3] == 'L' && name[4] == '_' && name[5] == 'S' && name[6] == '1' && name[7] == '6' {
            Some(Opcode::MultiplyS16)
        } else {
            None
        }
    } else if name.len() == 9 {
        if name[0] == 'S' && name[1] == 'T' && name[2] == 'O' && name[3] == 'R' && name[4] == 'E' && name[5] == '_' && name[6] == 'R' && name[7] == 'E' && name[8] == 'V' {
            Some(Opcode::StoreRev)
        } else if name[0] == 'S' && name[1] == 'T' && name[2] == 'A' && name[3] == 'T' && name[4] == 'I' && name[5] == 'C' && name[6] == '_' && name[7] == 'U' && name[8] == '8' {
            Some(Opcode::StaticU8)
        } else if name[0] == 'A' && name[1] == 'R' && name[2] == 'R' && name[3] == 'A' && name[4] == 'Y' && name[5] == '_' && name[6] == 'U' && name[7] == '1' && name[8] == '6' {
            Some(Opcode::ArrayU16)
        } else if name[0] == 'L' && name[1] == 'O' && name[2] == 'C' && name[3] == 'A' && name[4] == 'L' && name[5] == '_' && name[6] == 'U' && name[7] == '1' && name[8] == '6' {
            Some(Opcode::LocalU16)
        } else {
            None
        }
    } else if name.len() == 10 {
        if name[0] == 'I' && name[1] == 'O' && name[2] == 'F' && name[3] == 'F' && name[4] == 'S' && name[5] == 'E' && name[6] == 'T' && name[7] == '_' && name[8] == 'U' && name[9] == '8' {
            Some(Opcode::OffsetU8)
        } else if name[0] == 'S' && name[1] == 'T' && name[2] == 'A' && name[3] == 'T' && name[4] == 'I' && name[5] == 'C' && name[6] == '_' && name[7] == 'U' && name[8] == '1' && name[9] == '6' {
            Some(Opcode::StaticU16)
        } else if name[0] == 'G' && name[1] == 'L' && name[2] == 'O' && name[3] == 'B' && name[4] == 'A' && name[5] == 'L' && name[6] == '_' && name[7] == 'U' && name[8] == '1' && name[9] == '6' {
            Some(Opcode::GlobalU16)
        } else if name[0] == 'S' && name[1] == 'T' && name[2] == 'A' && name[3] == 'T' && name[4] == 'I' && name[5] == 'C' && name[6] == '_' && name[7] == 'U' && name[8] == '2' && name[9] == '4' {
            Some(Opcode::StaticU24)
        } else if name[0] == 'G' && name[1] == 'L' && name[2] == 'O' && name[3] == 'B' && name[4] == 'A' && name[5] == 'L' && name[6] == '_' && name[7] == 'U' && name[8] == '2' && name[9] == '4' {
            Some(Opcode::GlobalU24)
        } else {
            None
        }
    } else if name.len() == 11 {
        if name[0] == 'I' && name[1] == 'O' && name[2] == 'F' && name[3] == 'F' && name[4] == 'S' && name[5] == 'E' && name[6] == 'T' && name[7] == '_' && name[8] == 'S' && name[9] == '1' && name[10] == '6' {
            Some(Opcode::OffsetS16)
        } else if name[0] == 'S' && name[1] == 'T' && name[2] == 'R' && name[3] == 'I' && name[4] == 'N' && name[5] == 'G' && name[6] == '_' && name[7] == 'H' && name[8] == 'A' && name[9] == 'S' && name[10] == 'H' {
            Some(Opcode::StringHash)
        } else {
            None
        }
    } else if name.len() == 12 {
        if name[0] == 'P' && name[1] == 'U' && name[2] == 'S' && name[3] == 'H' && name[4] == '_' && name[5] == 'C' && name[6] == 'O' && name[7] == 'N' && name[8] == 'S' && name[9] == 'T' && name[10] == '_' && name[11] == 'F' {
            Some(Opcode::PushConstFloat)
        } else if name[0] == 'C' && name[1] == 'A' && name[2] == 'L' && name[3] == 'L' && name[4] == 'I' && name[5] == 'N' && name[6] == 'D' && name[7] == 'I' && name[8] == 'R' && name[9] == 'E' && name[10] == 'C' && name[11] == 'T' {
            Some(Opcode::CallIndirect)
        } else if name[0] == 'P' && name[1] == 'U' && name[2] == 'S' && name[3] == 'H' && name[4] == '_' && name[5] == 'C' && name[6] == 'O' && name[7] == 'N' && name[8] == 'S' && name[9] == 'T' && name[10] == '_' && name[11] == '0' {
            Some(Opcode::PushConst0)
        } else if name[0] == 'P' && name[1] == 'U' && name[2] == 'S' && name[3] == 'H' && name[4] == '_' && name[5] == 'C' && name[6] == 'O' && name[7] == 'N' && name[8] == 'S' && name[9] == 'T' && name[10] == '_' && name[11] == '1' {
            Some(Opcode::PushConst1)
        } else if name[0] == 'P' && name[1] == 'U' && name[2] == 'S' && name[3] == 'H' && name[4] == '_' && name[5] == 'C' && name[6] == 'O' && name[7] == 'N' && name[8] == 'S' && name[9] == 'T' && name[10] == '_' && name[11] == '2' {
            Some(Opcode::PushConst2)
        } else if name[0] == 'P' && name[1] == 'U' && name[2] == 'S' && name[3] == 'H' && name[4] == '_' && name[5] == 'C' && name[6] == 'O' && name[7] == 'N' && name[8] == 'S' && name[9] == 'T' && name[10] == '_' && name[11] == '3' {
            Some(Opcode::PushConst3)
        } else if name[0] == 'P' && name[1] == 'U' && name[2] == 'S' && name[3] == 'H' && name[4] == '_' && name[5] == 'C' && name[6] == 'O' && name[7] == 'N' && name[8] == 'S' && name[9] == 'T' && name[10] == '_' && name[11] == '4' {
            Some(Opcode::PushConst4)
        } else if name[0] == 'P' && name[1] == 'U' && name[2] == 'S' && name[3] == 'H' && name[4] == '_' && name[5] == 'C' && name[6] == 'O' && name[7] == 'N' && name[8] == 'S' && name[9] == 'T' && name[10] == '_' && name[11] == '5' {
            Some(Opcode::PushConst5)
        } else if name[0] == 'P' && name[1] == 'U' && name[2] == 'S' && name[3] == 'H' && name[4] == '_' && name[5] == 'C' && name[6] == 'O' && name[7] == 'N' && name[8] == 'S' && name[9] == 'T' && name[10] == '_' && name[11] == '6' {
            Some(Opcode::PushConst6)
        } else if name[0] == 'P' && name[1] == 'U' && name[2] == 'S' && name[3] == 'H' && name[4] == '_' && name[5] == 'C' && name[6] == 'O' && name[7] == 'N' && name[8] == 'S' && name[9] == 'T' && name[10] == '_' && name[11] == '7' {
            Some(Opcode::PushConst7)
        } else {
            None
        }
    } else if name.len() == 13 {
        if name[0] == 'P' && name[1] == 'U' && name[2] == 'S' && name[3] == 'H' && name[4] == '_' && name[5] == 'C' && name[6] == 'O' && name[7] == 'N' && name[8] == 'S' && name[9] == 'T' && name[10] == '_' && name[11] == 'U' && name[12] == '8' {
            Some(Opcode::PushConstU8)
        } else if name[0] == 'A' && name[1] == 'R' && name[2] == 'R' && name[3] == 'A' && name[4] == 'Y' && name[5] == '_' && name[6] == 'U' && name[7] == '8' && name[8] == '_' && name[9] == 'L' && name[10] == 'O' && name[11] == 'A' && name[12] == 'D' {
            Some(Opcode::ArrayU8Load)
        } else if name[0] == 'L' && name[1] == 'O' && name[2] == 'C' && name[3] == 'A' && name[4] == 'L' && name[5] == '_' && name[6] == 'U' && name[7] == '8' && name[8] == '_' && name[9] == 'L' && name[10] == 'O' && name[11] == 'A' && name[12] == 'D' {
            Some(Opcode::LocalU8Load)
        } else if name[0] == 'P' && name[1] == 'U' && name[2] == 'S' && name[3] == 'H' && name[4] == '_' && name[5] == 'C' && name[6] == 'O' && name[7] == 'N' && name[8] == 'S' && name[9] == 'T' && name[10] == '_' && name[11] == 'M' && name[12] == '1' {
            Some(Opcode::PushConstM1)
        } else if name[0] == 'P' && name[1] == 'U' && name[2] == 'S' && name[3] == 'H' && name[4] == '_' && name[5] == 'C' && name[6] == 'O' && name[7] == 'N' && name[8] == 'S' && name[9] == 'T' && name[10] == '_' && name[11] == 'F' && name[12] == '0' {
            Some(Opcode::PushConstF0)
        } else if name[0] == 'P' && name[1] == 'U' && name[2] == 'S' && name[3] == 'H' && name[4] == '_' && name[5] == 'C' && name[6] == 'O' && name[7] == 'N' && name[8] == 'S' && name[9] == 'T' && name[10] == '_' && name[11] == 'F' && name[12] == '1' {
            Some(Opcode::PushConstF1)
        } else if name[0] == 'P' && name[1] == 'U' && name[2] == 'S' && name[3] == 'H' && name[4] == '_' && name[5] == 'C' && name[6] == 'O' && name[7] == 'N' && name[8] == 'S' && name[9] == 'T' && name[10] == '_' && name[11] == 'F' && name[12] == '2' {
            Some(Opcode::PushConstF2)
        } else if name[0] == 'P' && name[1] == 'U' && name[2] == 'S' && name[3] == 'H' && name[4] == '_' && name[5] == 'C' && name[6] == 'O' && name[7] == 'N' && name[8] == 'S' && name[9] == 'T' && name[10] == '_' && name[11] == 'F' && name[12] == '3' {
            Some(Opcode::PushConstF3)
        } else if name[0] == 'P' && name[1] == 'U' && name[2] == 'S' && name[3] == 'H' && name[4] == '_' && name[5] == 'C' && name[6] == 'O' && name[7] == 'N' && name[8] == 'S' && name[9] == 'T' && name[10] == '_' && name[11] == 'F' && name[12] == '4' {
            Some(Opcode::PushConstF4)
        } else if name[0] == 'P' && name[1] == 'U' && name[2] == 'S' && name[3] == 'H' && name[4] == '_' && name[5] == 'C' && name[6] == 'O' && name[7] == 'N' && name[8] == 'S' && name[9] == 'T' && name[10] == '_' && name[11] == 'F' && name[12] == '5' {
            Some(Opcode::PushConstF5)
        } else if name[0] == 'P' && name[1] == 'U' && name[2] == 'S' && name[3] == 'H' && name[4] == '_' && name[5] == 'C' && name[6] == 'O' && name[7] == 'N' && name[8] == 'S' && name[9] == 'T' && name[10] == '_' && name[11] == 'F' && name[12] == '6' {
            Some(Opcode::PushConstF6)
        } else if name[0] == 'P' && name[1] == 'U' && name[2] == 'S' && name[3] == 'H' && name[4] == '_' && name[5] == 'C' && name[6] == 'O' && name[7] == 'N' && name[8] == 'S' && name[9] == 'T' && name[10] == '_' && name[11] == 'F' && name[12] == '7' {
            Some(Opcode::PushConstF7)
        } else {
            None
        }
    } else if name.len() == 14 {
        if name[0] == 'P' && name[1] == 'U' && name[2] == 'S' && name[3] == 'H' && name[4] == '_' && name[5] == 'C' && name[6] == 'O' && name[7] == 'N' && name[8] == 'S' && name[9] == 'T' && name[10] == '_' && name[11] == 'U' && name[12] == '3' && name[13] == '2' {
            Some(Opcode::PushConstU32)
        } else if name[0] == 'A' && name[1] == 'R' && name[2] == 'R' && name[3] == 'A' && name[4] == 'Y' && name[5] == '_' && name[6] == 'U' && name[7] == '8' && name[8] == '_' && name[9] == 'S' && name[10] == 'T' && name[11] == 'O' && name[12] == 'R' && name[13] == 'E' {
            Some(Opcode::ArrayU8Store)
        } else if name[0] == 'L' && name[1] == 'O' && name[2] == 'C' && name[3] == 'A' && name[4] == 'L' && name[5] == '_' && name[6] == 'U' && name[7] == '8' && name[8] == '_' && name[9] == 'S' && name[10] == 'T' && name[11] == 'O' && name[12] == 'R' && name[13] == 'E' {
            Some(Opcode::LocalU8Store)
        } else if name[0] == 'S' && name[1] == 'T' && name[2] == 'A' && name[3] == 'T' && name[4] == 'I' && name[5] == 'C' && name[6] == '_' && name[7] == 'U' && name[8] == '8' && name[9] == '_' && name[10] == 'L' && name[11] == 'O' && name[12] == 'A' && name[13] == 'D' {
            Some(Opcode::StaticU8Load)
        } else if name[0] == 'P' && name[1] == 'U' && name[2] == 'S' && name[3] == 'H' && name[4] == '_' && name[5] == 'C' && name[6] == 'O' && name[7] == 'N' && name[8] == 'S' && name[9] == 'T' && name[10] == '_' && name[11] == 'S' && name[12] == '1' && name[13] == '6' {
            Some(Opcode::PushConstS16)
        } else if name[0] == 'A' && name[1] == 'R' && name[2] == 'R' && name[3] == 'A' && name[4] == 'Y' && name[5] == '_' && name[6] == 'U' && name[7] == '1' && name[8] == '6' && name[9] == '_' && name[10] == 'L' && name[11] == 'O' && name[12] == 'A' && name[13] == 'D' {
            Some(Opcode::ArrayU16Load)
        } else if name[0] == 'L' && name[1] == 'O' && name[2] == 'C' && name[3] == 'A' && name[4] == 'L' && name[5] == '_' && name[6] == 'U' && name[7] == '1' && name[8] == '6' && name[9] == '_' && name[10] == 'L' && name[11] == 'O' && name[12] == 'A' && name[13] == 'D' {
            Some(Opcode::LocalU16Load)
        } else if name[0] == 'P' && name[1] == 'U' && name[2] == 'S' && name[3] == 'H' && name[4] == '_' && name[5] == 'C' && name[6] == 'O' && name[7] == 'N' && name[8] == 'S' && name[9] == 'T' && name[10] == '_' && name[11] == 'U' && name[12] == '2' && name[13] == '4' {
            Some(Opcode::PushConstU24)
        } else if name[0] == 'P' && name[1] == 'U' && name[2] == 'S' && name[3] == 'H' && name[4] == '_' && name[5] == 'C' && name[6] == 'O' && name[7] == 'N' && name[8] == 'S' && name[9] == 'T' && name[10] == '_' && name[11] == 'F' && name[12] == 'M' && name[13] == '1' {
            Some(Opcode::PushConstFm1)
        } else {
            None
        }
    } else if name.len() == 15 {
        if name[0] == 'S' && name[1] == 'T' && name[2] == 'A' && name[3] == 'T' && name[4] == 'I' && name[5] == 'C' && name[6] == '_' && name[7] == 'U' && name[8] == '8' && name[9] == '_' && name[10] == 'S' && name[11] == 'T' && name[12] == 'O' && name[13] == 'R' && name[14] == 'E' {
            Some(Opcode::StaticU8Store)
        } else if name[0] == 'I' && name[1] == 'O' && name[2] == 'F' && name[3] == 'F' && name[4] == 'S' && name[5] == 'E' && name[6] == 'T' && name[7] == '_' && name[8] == 'U' && name[9] == '8' && name[10] == '_' && name[11] == 'L' && name[12] == 'O' && name[13] == 'A' && name[14] == 'D' {
            Some(Opcode::OffsetU8Load)
        } else if name[0] == 'A' && name[1] == 'R' && name[2] == 'R' && name[3] == 'A' && name[4] == 'Y' && name[5] == '_' && name[6] == 'U' && name[7] == '1' && name[8] == '6' && name[9] == '_' && name[10] == 'S' && name[11] == 'T' && name[12] == 'O' && name[13] == 'R' && name[14] == 'E' {
            Some(Opcode::ArrayU16Store)
        } else if name[0] == 'L' && name[1] == 'O' && name[2] == 'C' && name[3] == 'A' && name[4] == 'L' && name[5] == '_' && name[6] == 'U' && name[7] == '1' && name[8] == '6' && name[9] == '_' && name[10] == 'S' && name[11] == 'T' && name[12] == 'O' && name[13] == 'R' && name[14] == 'E' {
            Some(Opcode::LocalU16Store)
        } else if name[0] == 'S' && name[1] == 'T' && name[2] == 'A' && name[3] == 'T' && name[4] == 'I' && name[5] == 'C' && name[6] == '_' && name[7] == 'U' && name[8] == '1' && name[9] == '6' && name[10] == '_' && name[11] == 'L' && name[12] == 'O' && name[13] == 'A' && name[14] == 'D' {
            Some(Opcode::StaticU16Load)
        } else if name[0] == 'G' && name[1] == 'L' && name[2] == 'O' && name[3] == 'B' && name[4] == 'A' && name[5] == 'L' && name[6] == '_' && name[7] == 'U' && name[8] == '1' && name[9] == '6' && name[10] == '_' && name[11] == 'L' && name[12] == 'O' && name[13] == 'A' && name[14] == 'D' {
            Some(Opcode::GlobalU16Load)
        } else if name[0] == 'S' && name[1] == 'T' && name[2] == 'A' && name[3] == 'T' && name[4] == 'I' && name[5] == 'C' && name[6] == '_' && name[7] == 'U' && name[8] == '2' && name[9] == '4' && name[10] == '_' && name[11] == 'L' && name[12] == 'O' && name[13] == 'A' && name[14] == 'D' {
            Some(Opcode::StaticU24Load)
        } else if name[0] == 'G' && name[1] == 'L' && name[2] == 'O' && name[3] == 'B' && name[4] == 'A' && name[5] == 'L' && name[6] == '_' && name[7] == 'U' && name[8] == '2' && name[9] == '4' && name[10] == '_' && name[11] == 'L' && name[12] == 'O' && name[13] == 'A' && name[14] == 'D' {
            Some(Opcode::GlobalU24Load)
        } else if name[0] == 'T' && name[1] == 'E' && name[2] == 'X' && name[3] == 'T' && name[4] == '_' && name[5] == 'L' && name[6] == 'A' && name[7] == 'B' && name[8] == 'E' && name[9] == 'L' && name[10] == '_' && name[11] == 'C' && name[12] == 'O' && name[13] == 'P' && name[14] == 'Y' {
            Some(Opcode::TextLabelCopy)
        } else {
            None
        }
    } else if name.len() == 16 {
        if name[0] == 'P' && name[1] == 'U' && name[2] == 'S' && name[3] == 'H' && name[4] == '_' && name[5] == 'C' && name[6] == 'O' && name[7] == 'N' && name[8] == 'S' && name[9] == 'T' && name[10] == '_' && name[11] == 'U' && name[12] == '8' && name[13] == '_' && name[14] == 'U' && name[15] == '8' {
            Some(Opcode::PushConstU8U8)
        } else if name[0] == 'I' && name[1] == 'O' && name[2] == 'F' && name[3] == 'F' && name[4] == 'S' && name[5] == 'E' && name[6] == 'T' && name[7] == '_' && name[8] == 'U' && name[9] == '8' && name[10] == '_' && name[11] == 'S' && name[12] == 'T' && name[13] == 'O' && name[14] == 'R' && name[15] == 'E' {
            Some(Opcode::OffsetU8Store)
        } else if name[0] == 'I' && name[1] == 'O' && name[2] == 'F' && name[3] == 'F' && name[4] == 'S' && name[5] == 'E' && name[6] == 'T' && name[7] == '_' && name[8] == 'S' && name[9] == '1' && name[10] == '6' && name[11] == '_' && name[12] == 'L' && name[13] == 'O' && name[14] == 'A' && name[15] == 'D' {
            Some(Opcode::OffsetS16Load)
        } else if name[0] == 'S' && name[1] == 'T' && name[2] == 'A' && name[3] == 'T' && name[4] == 'I' && name[5] == 'C' && name[6] == '_' && name[7] == 'U' && name[8] == '1' && name[9] == '6' && name[10] == '_' && name[11] == 'S' && name[12] == 'T' && name[13] == 'O' && name[14] == 'R' && name[15] == 'E' {
            Some(Opcode::StaticU16Store)
        } else if name[0] == 'G' && name[1] == 'L' && name[2] == 'O' && name[3] == 'B' && name[4] == 'A' && name[5] == 'L' && name[6] == '_' && name[7] == 'U' && name[8] == '1' && name[9] == '6' && name[10] == '_' && name[11] == 'S' && name[12] == 'T' && name[13] == 'O' && name[14] == 'R' && name[15] == 'E' {
            Some(Opcode::GlobalU16Store)
        } else if name[0] == 'S' && name[1] == 'T' && name[2] == 'A' && name[3] == 'T' && name[4] == 'I' && name[5] == 'C' && name[6] == '_' && name[7] == 'U' && name[8] == '2' && name[9] == '4' && name[10] == '_' && name[11] == 'S' && name[12] == 'T' && name[13] == 'O' && name[14] == 'R' && name[15] == 'E' {
            Some(Opcode::StaticU24Store)
        } else if name[0] == 'G' && name[1] == 'L' && name[2] == 'O' && name[3] == 'B' && name[4] == 'A' && name[5] == 'L' && name[6] == '_' && name[7] == 'U' && name[8] == '2' && name[9] == '4' && name[10] == '_' && name[11] == 'S' && name[12] == 'T' && name[13] == 'O' && name[14] == 'R' && name[15] == 'E' {
            Some(Opcode::GlobalU24Store)
        } else {
            None
        }
    } else if name.len() == 17 {
        if name[0] == 'I' && name[1] == 'O' && name[2] == 'F' && name[3] == 'F' && name[4] == 'S' && name[5] == 'E' && name[6] == 'T' && name[7] == '_' && name[8] == 'S' && name[9] == '1' && name[10] == '6' && name[11] == '_' && name[12] == 'S' && name[13] == 'T' && name[14] == 'O' && name[15] == 'R' && name[16] == 'E' {
            Some(Opcode::OffsetS16Store)
        } else {
            None
        }
    } else if name.len() == 19 {
        if name[0] == 'P' && name[1] == 'U' && name[2] == 'S' && name[3] == 'H' && name[4] == '_' && name[5] == 'C' && name[6] == 'O' && name[7] == 'N' && name[8] == 'S' && name[9] == 'T' && name[10] == '_' && name[11] == 'U' && name[12] == '8' && name[13] == '_' && name[14] == 'U' && name[15] == '8' && name[16] == '_' && name[17] == 'U' && name[18] == '8' {
            Some(Opcode::PushConstU8U8U8)
        } else {
            None
        }
    } else if name.len() == 21 {
        if name[0] == 'T' && name[1] == 'E' && name[2] == 'X' && name[3] == 'T' && name[4] == '_' && name[5] == 'L' && name[6] == 'A' && name[7] == 'B' && name[8] == 'E' && name[9] == 'L' && name[10] == '_' && name[11] == 'A' && name[12] == 'S' && name[13] == 'S' && name[14] == 'I' && name[15] == 'G' && name[16] == 'N' && name[17] == '_' && name[18] == 'I' && name[19] == 'N' && name[20] == 'T' {
            Some(Opcode::TextLabelAssignInt)
        } else if name[0] == 'T' && name[1] == 'E' && name[2] == 'X' && name[3] == 'T' && name[4] == '_' && name[5] == 'L' && name[6] == 'A' && name[7] == 'B' && name[8] == 'E' && name[9] == 'L' && name[10] == '_' && name[11] == 'A' && name[12] == 'P' && name[13] == 'P' && name[14] == 'E' && name[15] == 'N' && name[16] == 'D' && name[17] == '_' && name[18] == 'I' && name[19] == 'N' && name[20] == 'T' {
            Some(Opcode::TextLabelAppendInt)
        } else {
            None
        }
    } else if name.len() == 24 {
        if name[0] == 'T' && name[1] == 'E' && name[2] == 'X' && name[3] == 'T' && name[4] == '_' && name[5] == 'L' && name[6] == 'A' && name[7] == 'B' && name[8] == 'E' && name[9] == 'L' && name[10] == '_' && name[11] == 'A' && name[12] == 'S' && name[13] == 'S' && name[14] == 'I' && name[15] == 'G' && name[16] == 'N' && name[17] == '_' && name[18] == 'S' && name[19] == 'T' && name[20] == 'R' && name[21] == 'I' && name[22] == 'N' && name[23] == 'G' {
            Some(Opcode::TextLabelAssignString)
        } else if name[0] == 'T' && name[1] == 'E' && name[2] == 'X' && name[3] == 'T' && name[4] == '_' && name[5] == 'L' && name[6] == 'A' && name[7] == 'B' && name[8] == 'E' && name[9] == 'L' && name[10] == '_' && name[11] == 'A' && name[12] == 'P' && name[13] == 'P' && name[14] == 'E' && name[15] == 'N' && name[16] == 'D' && name[17] == '_' && name[18] == 'S' && name[19] == 'T' && name[20] == 'R' && name[21] == 'I' && name[22] == 'N' && name[23] == 'G' {
            Some(Opcode::TextLabelAppendString)
        } else {
            None
        }
    } else {
        None
    }
}

/// Each instruction is listed by the name its opcode has in the
/// instruction set.
#[verifier::rlimit(100)]
pub proof fn lemma_mnemonic_names_opcode(instruction: Instruction)
    ensures
        opcode_named(mnemonic(instruction)) == Some(opcode_of(instruction)),
{
    match instruction {
        Instruction::Nop => {
            reveal_strlit("NOP");
        },
        Instruction::IntegerAdd => {
            reveal_strlit("IADD");
        },
        Instruction::IntegerSubtract => {
            reveal_strlit("ISUB");
        },
        Instruction::IntegerMultiply => {
            reveal_strlit("IMUL");
        },
        Instruction::IntegerDivide => {
            reveal_strlit("IDIV");
        },
        Instruction::IntegerModulo => {
            reveal_strlit("IMOD");
        },
        Instruction::IntegerNot => {
            reveal_strlit("INOT");
        },
        Instruction::IntegerNegate => {
            reveal_strlit("INEG");
        },
        Instruction::IntegerEquals => {
            reveal_strlit("IEQ");
        },
        Instruction::IntegerNotEquals => {
            reveal_strlit("INE");
        },
        Instruction::IntegerGreaterThan => {
            reveal_strlit("IGT");
        },
        Instruction::IntegerGreaterOrEqual => {
            reveal_strlit("IGE");
        },
        Instruction::IntegerLowerThan => {
            reveal_strlit("ILT");
        },
        Instruction::IntegerLowerOrEqual => {
            reveal_strlit("ILE");
        },
        Instruction::FloatAdd => {
            reveal_strlit("FADD");
        },
        Instruction::FloatSubtract => {
            reveal_strlit("FSUB");
        },
        Instruction::FloatMultiply => {
            reveal_strlit("FMUL");
        },
        Instruction::FloatDivide => {
            reveal_strlit("FDIV");
        },
        Instruction::FloatModule => {
            reveal_strlit("FMOD");
        },
        Instruction::FloatNegate => {
            reveal_strlit("FNEG");
        },
        Instruction::FloatEquals => {
            reveal_strlit("FEQ");
        },
        Instruction::FloatNotEquals => {
            reveal_strlit("FNE");
        },
        Instruction::FloatGreaterThan => {
            reveal_strlit("FGT");
        },
        Instruction::FloatGreaterOrEqual => {
            reveal_strlit("FGE");
        },
        Instruction::FloatLowerThan => {
            reveal_strlit("FLT");
        },
        Instruction::FloatLowerOrEqual => {
            reveal_strlit("FLE");
        },
        Instruction::VectorAdd => {
            reveal_strlit("VADD");
        },
        Instruction::VectorSubtract => {
            reveal_strlit("VSUB");
        },
        Instruction::VectorMultiply => {
            reveal_strlit("VMUL");
        },
        Instruction::VectorDivide => {
            reveal_strlit("VDIV");
        },
        Instruction::VectorNegate => {
            reveal_strlit("VNEG");
        },
        Instruction::BitwiseAnd => {
            reveal_strlit("IAND");
        },
        Instruction::BitwiseOr => {
            reveal_strlit("IOR");
        },
        Instruction::BitwiseXor => {
            reveal_strlit("IXOR");
        },
        Instruction::IntegerToFloat => {
            reveal_strlit("I2F");
        },
        Instruction::FloatToInteger => {
            reveal_strlit("F2I");
        },
        Instruction::FloatToVector => {
            reveal_strlit("F2V");
        },
        Instruction::PushConstU8 { .. } => {
            reveal_strlit("PUSH_CONST_U8");
        },
        Instruction::PushConstU8U8 { .. } => {
            reveal_strlit("PUSH_CONST_U8_U8");
        },
        Instruction::PushConstU8U8U8 { .. } => {
            reveal_strlit("PUSH_CONST_U8_U8_U8");
        },
        Instruction::PushConstU32 { .. } => {
            reveal_strlit("PUSH_CONST_U32");
        },
        Instruction::PushConstFloat { .. } => {
            reveal_strlit("PUSH_CONST_F");
        },
        Instruction::Dup => {
            reveal_strlit("DUP");
        },
        Instruction::Drop => {
            reveal_strlit("DROP");
        },
        Instruction::NativeCall { .. } => {
            reveal_strlit("NATIVE");
        },
        Instruction::Enter { .. } => {
            reveal_strlit("ENTER");
        },
        Instruction::Leave { .. } => {
            reveal_strlit("LEAVE");
        },
        Instruction::Load => {
            reveal_strlit("LOAD");
        },
        Instruction::Store => {
            reveal_strlit("STORE");
        },
        Instruction::StoreRev => {
            reveal_strlit("STORE_REV");
        },
        Instruction::LoadN => {
            reveal_strlit("LOAD_N");
        },
        Instruction::StoreN => {
            reveal_strlit("STORE_N");
        },
        Instruction::ArrayU8 { .. } => {
            reveal_strlit("ARRAY_U8");
        },
        Instruction::ArrayU8Load { .. } => {
            reveal_strlit("ARRAY_U8_LOAD");
        },
        Instruction::ArrayU8Store { .. } => {
            reveal_strlit("ARRAY_U8_STORE");
        },
        Instruction::LocalU8 { .. } => {
            reveal_strlit("LOCAL_U8");
        },
        Instruction::LocalU8Load { .. } => {
            reveal_strlit("LOCAL_U8_LOAD");
        },
        Instruction::LocalU8Store { .. } => {
            reveal_strlit("LOCAL_U8_STORE");
        },
        Instruction::StaticU8 { .. } => {
            reveal_strlit("STATIC_U8");
        },
        Instruction::StaticU8Load { .. } => {
            reveal_strlit("STATIC_U8_LOAD");
        },
        Instruction::StaticU8Store { .. } => {
            reveal_strlit("STATIC_U8_STORE");
        },
        Instruction::AddU8 { .. } => {
            reveal_strlit("IADD_U8");
        },
        Instruction::MultiplyU8 { .. } => {
            reveal_strlit("IMUL_U8");
        },
        Instruction::Offset => {
            reveal_strlit("IOFFSET");
        },
        Instruction::OffsetU8 { .. } => {
            reveal_strlit("IOFFSET_U8");
        },
        Instruction::OffsetU8Load { .. } => {
            reveal_strlit("IOFFSET_U8_LOAD");
        },
        Instruction::OffsetU8Store { .. } => {
            reveal_strlit("IOFFSET_U8_STORE");
        },
        Instruction::PushConstS16 { .. } => {
            reveal_strlit("PUSH_CONST_S16");
        },
        Instruction::AddS16 { .. } => {
            reveal_strlit("IADD_S16");
        },
        Instruction::MultiplyS16 { .. } => {
            reveal_strlit("IMUL_S16");
        },
        Instruction::OffsetS16 { .. } => {
            reveal_strlit("IOFFSET_S16");
        },
        Instruction::OffsetS16Load { .. } => {
            reveal_strlit("IOFFSET_S16_LOAD");
        },
        Instruction::OffsetS16Store { .. } => {
            reveal_strlit("IOFFSET_S16_STORE");
        },
        Instruction::ArrayU16 { .. } => {
            reveal_strlit("ARRAY_U16");
        },
        Instruction::ArrayU16Load { .. } => {
            reveal_strlit("ARRAY_U16_LOAD");
        },
        Instruction::ArrayU16Store { .. } => {
            reveal_strlit("ARRAY_U16_STORE");
        },
        Instruction::LocalU16 { .. } => {
            reveal_strlit("LOCAL_U16");
        },
        Instruction::LocalU16Load { .. } => {
            reveal_strlit("LOCAL_U16_LOAD");
        },
        Instruction::LocalU16Store { .. } => {
            reveal_strlit("LOCAL_U16_STORE");
        },
        Instruction::StaticU16 { .. } => {
            reveal_strlit("STATIC_U16");
        },
        Instruction::StaticU16Load { .. } => {
            reveal_strlit("STATIC_U16_LOAD");
        },
        Instruction::StaticU16Store { .. } => {
            reveal_strlit("STATIC_U16_STORE");
        },
        Instruction::GlobalU16 { .. } => {
            reveal_strlit("GLOBAL_U16");
        },
        Instruction::GlobalU16Load { .. } => {
            reveal_strlit("GLOBAL_U16_LOAD");
        },
        Instruction::GlobalU16Store { .. } => {
            reveal_strlit("GLOBAL_U16_STORE");
        },
        Instruction::Jump { .. } => {
            reveal_strlit("J");
        },
        Instruction::JumpZero { .. } => {
            reveal_strlit("JZ");
        },
        Instruction::IfEqualJumpZero { .. } => {
            reveal_strlit("IEQ_JZ");
        },
        Instruction::IfNotEqualJumpZero { .. } => {
            reveal_strlit("INE_JZ");
        },
        Instruction::IfGreaterThanJumpZero { .. } => {
            reveal_strlit("IGT_JZ");
        },
        Instruction::IfGreaterOrEqualJumpZero { .. } => {
            reveal_strlit("IGE_JZ");
        },
        Instruction::IfLowerThanJumpZero { .. } => {
            reveal_strlit("ILT_JZ");
        },
        Instruction::IfLowerOrEqualJumpZero { .. } => {
            reveal_strlit("ILE_JZ");
        },
        Instruction::FunctionCall { .. } => {
            reveal_strlit("CALL");
        },
        Instruction::StaticU24 { .. } => {
            reveal_strlit("STATIC_U24");
        },
        Instruction::StaticU24Load { .. } => {
            reveal_strlit("STATIC_U24_LOAD");
        },
        Instruction::StaticU24Store { .. } => {
            reveal_strlit("STATIC_U24_STORE");
        },
        Instruction::GlobalU24 { .. } => {
            reveal_strlit("GLOBAL_U24");
        },
        Instruction::GlobalU24Load { .. } => {
            reveal_strlit("GLOBAL_U24_LOAD");
        },
        Instruction::GlobalU24Store { .. } => {
            reveal_strlit("GLOBAL_U24_STORE");
        },
        Instruction::PushConstU24 { .. } => {
            reveal_strlit("PUSH_CONST_U24");
        },
        Instruction::Switch { .. } => {
            reveal_strlit("SWITCH");
        },
        Instruction::String => {
            reveal_strlit("STRING");
        },
        Instruction::StringHash => {
            reveal_strlit("STRING_HASH");
        },
        Instruction::TextLabelAssignString { .. } => {
            reveal_strlit("TEXT_LABEL_ASSIGN_STRING");
        },
        Instruction::TextLabelAssignInt { .. } => {
            reveal_strlit("TEXT_LABEL_ASSIGN_INT");
        },
        Instruction::TextLabelAppendString { .. } => {
            reveal_strlit("TEXT_LABEL_APPEND_STRING");
        },
        Instruction::TextLabelAppendInt { .. } => {
            reveal_strlit("TEXT_LABEL_APPEND_INT");
        },
        Instruction::TextLabelCopy => {
            reveal_strlit("TEXT_LABEL_COPY");
        },
        Instruction::Catch => {
            reveal_strlit("CATCH");
        },
        Instruction::Throw => {
            reveal_strlit("THROW");
        },
        Instruction::CallIndirect => {
            reveal_strlit("CALLINDIRECT");
        },
        Instruction::PushConstM1 => {
            reveal_strlit("PUSH_CONST_M1");
        },
        Instruction::PushConst0 => {
            reveal_strlit("PUSH_CONST_0");
        },
        Instruction::PushConst1 => {
            reveal_strlit("PUSH_CONST_1");
        },
        Instruction::PushConst2 => {
            reveal_strlit("PUSH_CONST_2");
        },
        Instruction::PushConst3 => {
            reveal_strlit("PUSH_CONST_3");
        },
        Instruction::PushConst4 => {
            reveal_strlit("PUSH_CONST_4");
        },
        Instruction::PushConst5 => {
            reveal_strlit("PUSH_CONST_5");
        },
        Instruction::PushConst6 => {
            reveal_strlit("PUSH_CONST_6");
        },
        Instruction::PushConst7 => {
            reveal_strlit("PUSH_CONST_7");
        },
        Instruction::PushConstFm1 => {
            reveal_strlit("PUSH_CONST_FM1");
        },
        Instruction::PushConstF0 => {
            reveal_strlit("PUSH_CONST_F0");
        },
        Instruction::PushConstF1 => {
            reveal_strlit("PUSH_CONST_F1");
        },
        Instruction::PushConstF2 => {
            reveal_strlit("PUSH_CONST_F2");
        },
        Instruction::PushConstF3 => {
            reveal_strlit("PUSH_CONST_F3");
        },
        Instruction::PushConstF4 => {
            reveal_strlit("PUSH_CONST_F4");
        },
        Instruction::PushConstF5 => {
            reveal_strlit("PUSH_CONST_F5");
        },
        Instruction::PushConstF6 => {
            reveal_strlit("PUSH_CONST_F6");
        },
        Instruction::PushConstF7 => {
            reveal_strlit("PUSH_CONST_F7");
        },
        Instruction::BitTest => {
            reveal_strlit("BITTEST");
        },
    }
}

/// Instructions listed alike have the same opcode: the mnemonic tells the
/// opcode, so no two opcodes share one.
pub proof fn lemma_mnemonics_distinct(a: Instruction, b: Instruction)
    ensures
        mnemonic(a) == mnemonic(b) ==> opcode_of(a) == opcode_of(b),
        opcode_of(a) != opcode_of(b) ==> mnemonic(a) != mnemonic(b),
{
    lemma_mnemonic_names_opcode(a);
    lemma_mnemonic_names_opcode(b);
}

} // verus!
