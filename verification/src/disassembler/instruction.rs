use vstd::prelude::*;

verus! {

/// A decoded script instruction. Jump and call operands are absolute
/// code positions; `PushConstFloat` holds the bits of its float.
#[derive(Clone, Debug)]
pub enum Instruction {
    Nop,
    /// `IADD`
    IntegerAdd,
    /// `ISUB`
    IntegerSubtract,
    /// `IMUL`
    IntegerMultiply,
    /// `IDIV`
    IntegerDivide,
    /// `IMOD`
    IntegerModulo,
    /// `INOT`
    IntegerNot,
    /// `INEG`
    IntegerNegate,
    /// `IEQ`
    IntegerEquals,
    /// `INE`
    IntegerNotEquals,
    /// `IGT`
    IntegerGreaterThan,
    /// `IGE`
    IntegerGreaterOrEqual,
    /// `ILT`
    IntegerLowerThan,
    /// `ILE`
    IntegerLowerOrEqual,
    /// `FADD`
    FloatAdd,
    /// `FSUB`
    FloatSubtract,
    /// `FMUL`
    FloatMultiply,
    /// `FDIV`
    FloatDivide,
    /// `FMOD`
    FloatModule,
    /// `FNEG`
    FloatNegate,
    /// `FEQ`
    FloatEquals,
    /// `FNE`
    FloatNotEquals,
    /// `FGT`
    FloatGreaterThan,
    /// `FGE`
    FloatGreaterOrEqual,
    /// `FLT`
    FloatLowerThan,
    /// `FLE`
    FloatLowerOrEqual,
    /// `VADD`
    VectorAdd,
    /// `VSUB`
    VectorSubtract,
    /// `VMUL`
    VectorMultiply,
    /// `FDIV`
    VectorDivide,
    /// `VNEG`
    VectorNegate,
    /// `IAND`
    BitwiseAnd,
    /// `IOR`
    BitwiseOr,
    /// `IXOR`
    BitwiseXor,
    /// `I2F`
    IntegerToFloat,
    /// `F2I`
    FloatToInteger,
    /// `F2V`
    FloatToVector,
    /// `PUSH_CONST_U8`
    PushConstU8 { c1: u8 },
    /// `PUSH_CONST_U8_U8`
    PushConstU8U8 { c1: u8, c2: u8 },
    /// `PUSH_CONST_U8_U8_U8`
    PushConstU8U8U8 { c1: u8, c2: u8, c3: u8 },
    /// `PUSH_CONST_U32`
    PushConstU32 { c1: u32 },
    /// `PUSH_CONST_F`
    PushConstFloat { c1: u32 },
    /// `DUP`
    Dup,
    /// `DROP`
    Drop,
    /// `NATIVE`
    NativeCall { arg_count: u8, return_count: u8, native_index: u16 },
    /// `ENTER`
    Enter { arg_count: u8, frame_size: u16, name: Option<String> },
    Leave { parameter_count: u8, return_count: u8 },
    /// `LOAD`
    Load,
    /// `STORE`
    Store,
    /// `STORE_REV`
    StoreRev,
    /// `LOAD_N`
    LoadN,
    /// `STORE_N`
    StoreN,
    /// `ARRAY_U8`
    ArrayU8 { item_size: u8 },
    /// `ARRAY_U8_LOAD`
    ArrayU8Load { item_size: u8 },
    /// `ARRAY_U8_STORES`
    ArrayU8Store { item_size: u8 },
    /// `LOCAL_U8`
    LocalU8 { offset: u8 },
    /// `LOCAL_U8_LOAD`
    LocalU8Load { offset: u8 },
    /// `LOCAL_U8_STORE`
    LocalU8Store { offset: u8 },
    /// `STATIC_U8`
    StaticU8 { static_index: u8 },
    /// `STATIC_U8_LOAD`
    StaticU8Load { static_index: u8 },
    /// `STATIC_U8_STORE`
    StaticU8Store { static_index: u8 },
    /// `IADD_U8`
    AddU8 { value: u8 },
    /// `IMUL_U8`
    MultiplyU8 { value: u8 },
    /// `IOFFSET`
    Offset,
    /// `IOFFSET_U8`
    OffsetU8 { offset: u8 },
    /// `IOFFSET_U8_LOAD`
    OffsetU8Load { offset: u8 },
    /// `IOFFSET_U8_LOAD`
    OffsetU8Store { offset: u8 },
    /// `PUSH_CONST_S16`
    PushConstS16 { c1: i16 },
    /// `IADD_S16`
    AddS16 { value: i16 },
    /// `IMUL_S16`
    MultiplyS16 { value: i16 },
    /// `IOFFSET_S16`
    OffsetS16 { offset: i16 },
    /// `IOFFSET_S16_LOAD`
    OffsetS16Load { offset: i16 },
    /// `IOFFSET_S16_STORE`
    OffsetS16Store { offset: i16 },
    /// `ARRAY_U16`
    ArrayU16 { item_size: u16 },
    /// `ARRAY_U16_LOAD`
    ArrayU16Load { item_size: u16 },
    /// `ARRAY_U8_STORE`
    ArrayU16Store { item_size: u16 },
    /// `LOCAL_U16`
    LocalU16 { local_index: u16 },
    /// `LOCAL_U16_LOAD`
    LocalU16Load { local_index: u16 },
    /// `LOCAL_U16_STORE`
    LocalU16Store { local_index: u16 },
    /// `STATIC_U16`
    StaticU16 { static_index: u16 },
    /// `STATIC_U16_LOAD`
    StaticU16Load { static_index: u16 },
    /// `STATIC_U16_STORE`
    StaticU16Store { static_index: u16 },
    /// `GLOBAL_U16`
    GlobalU16 { global_index: u16 },
    /// `GLOBAL_U16_LOAD`
    GlobalU16Load { global_index: u16 },
    /// `GLOBAL_U16_STORE`
    GlobalU16Store { global_index: u16 },
    /// `J`
    Jump { location: u32 },
    /// `JZ`
    JumpZero { location: u32 },
    /// `IEQ_JZ`
    IfEqualJumpZero { location: u32 },
    /// `INE_JZ`
    IfNotEqualJumpZero { location: u32 },
    /// `IGT_JZ`
    IfGreaterThanJumpZero { location: u32 },
    /// `IGE_JZ`
    IfGreaterOrEqualJumpZero { location: u32 },
    /// `IGT_JZ`
    IfLowerThanJumpZero { location: u32 },
    /// `IGT_JZ`
    IfLowerOrEqualJumpZero { location: u32 },
    /// `CALL`
    FunctionCall { location: u32 },
    /// `STATIC_U24`
    StaticU24 { static_index: u32 },
    /// `STATIC_U24_LOAD`
    StaticU24Load { static_index: u32 },
    /// `STATIC_U24_STORE`
    StaticU24Store { static_index: u32 },
    /// `GLOBAL_U24`
    GlobalU24 { global_index: u32 },
    /// `GLOBAL_U24_LOAD`
    GlobalU24Load { global_index: u32 },
    /// `GLOBAL_U24_STORE`
    GlobalU24Store { global_index: u32 },
    /// `PUSH_CONST_U24`
    PushConstU24 { c1: u32 },
    /// `SWITCH`
    Switch { cases: Vec<SwitchCase> },
    /// `STRING`
    String,
    /// `STRINGHASH`
    StringHash,
    /// `TEXT_LABEL_ASSIGN_STRING`
    TextLabelAssignString { buffer_size: u8 },
    /// `TEXT_LABEL_ASSIGN_INT`
    TextLabelAssignInt { buffer_size: u8 },
    /// `TEXT_LABEL_APPEND_STRING`
    TextLabelAppendString { buffer_size: u8 },
    /// `TEXT_LABEL_APPEND_INT`
    TextLabelAppendInt { buffer_size: u8 },
    /// `TEXT_LABEL_COPY`
    TextLabelCopy,
    /// `CATCH`
    Catch,
    /// `THROW`
    Throw,
    /// `CALLINDIRECT`
    CallIndirect,
    /// `PUSH_CONST_M1`
    PushConstM1,
    /// `PUSH_CONST_0`
    PushConst0,
    /// `PUSH_CONST_1`
    PushConst1,
    /// `PUSH_CONST_2`
    PushConst2,
    /// `PUSH_CONST_3`
    PushConst3,
    /// `PUSH_CONST_4`
    PushConst4,
    /// `PUSH_CONST_5`
    PushConst5,
    /// `PUSH_CONST_6`
    PushConst6,
    /// `PUSH_CONST_7`
    PushConst7,
    /// `PUSH_CONST_FM1`
    PushConstFm1,
    /// `PUSH_CONST_F0`
    PushConstF0,
    /// `PUSH_CONST_F1`
    PushConstF1,
    /// `PUSH_CONST_F2`
    PushConstF2,
    /// `PUSH_CONST_F3`
    PushConstF3,
    /// `PUSH_CONST_F4`
    PushConstF4,
    /// `PUSH_CONST_F5`
    PushConstF5,
    /// `PUSH_CONST_F6`
    PushConstF6,
    /// `PUSH_CONST_F7`
    PushConstF7,
    /// `BITTEST`
    BitTest,
}

/// One case of a switch: the value it matches and where it jumps.
#[derive(Debug, Clone, Copy, PartialEq, Eq, Structural)]
pub struct SwitchCase {
    pub value: u32,
    pub location: u32,
}

/// An instruction with its position in the code and its bytes.
#[derive(Debug)]
pub struct InstructionInfo<'input> {
    pub instruction: Instruction,
    pub pos: usize,
    pub bytes: &'input [u8],
}

} // verus!
