use vstd::prelude::*;

verus! {

/// A decoded script instruction of the older numbering, which lacks the
/// `StaticU24` opcodes. Operands are as they are encoded, except that jump
/// targets are absolute and `PushConstFloat` holds the bits of its float.
#[derive(Clone, Debug)]
pub enum Instruction {
    /// `NOP`
    Nop,
    /// `IADD`
    IntegerAdd,
    /// `ISUB`
    IntegerSubtract,
    /// `IMUL`
    IntegerMultiply,
    /// `IDIV`
    IntegerDivide,
    /// `IMOD`
    IntigerModulo,
    /// `INOT`
    IntegerNot,
    /// `INEG`
    IntegerNegate,
    /// `IEQ`
    IntegerEquals,
    /// `INE`
    IntegerNotEquals,
    /// `IGT`
    IntegerGreaterThan,
    /// `IGE`
    IntegerGreaterOrEqual,
    /// `ILT`
    IntegerLowerThan,
    /// `ILE`
    IntegerLowerOrEqual,
    /// `FADD`
    FloatAdd,
    /// `FSub`
    FloatSubtract,
    /// `FMUL`
    FloatMultiply,
    /// `FDIV`
    FloatDivide,
    /// `FMOD`
    FloatModule,
    /// `FNEG`
    FloatNegate,
    /// `FEQ`
    FloatEquals,
    /// `FNE`
    FloatNotEquals,
    /// `FGT`
    FloatGreaterThan,
    /// `FGE`
    FloatGreaterOrEqual,
    /// `FLT`
    FloatLowerThan,
    /// `FLE`
    FloatLowerOrEqual,
    /// `VADD`
    VectorAdd,
    /// `VSUB`
    VectorSubtract,
    /// `VMUL`
    VectorMultiply,
    /// `VDIV`
    VectorDivide,
    /// `VNEG`
    VectorNegate,
    /// `IAND`
    BitwiseAnd,
    /// `IOR`
    BitwiseOr,
    /// `IXOR`
    BitwiseXor,
    /// `I2F`
    IntegerToFloat,
    /// `F2I`
    FloatToInteger,
    /// `F2V`
    FloatToVector,
    /// `PUSH_CONST_U8`
    PushConstU8(u8),
    /// `PUSH_CONST_U8_U8`
    PushConstU8U8(u8, u8),
    /// `PUSH_CONST_U8_U8_U8`
    PushConstU8U8U8(u8, u8, u8),
    /// `PUSH_CONST_U32`
    PushConstU32(u32),
    /// `PUSH_CONST_F`
    PushConstFloat(u32),
    /// `DUP`
    Dup,
    /// `DROP`
    Drop,
    /// `NATIVE`
    NativeCall { arg_count: u8, return_count: u8, native_index: u16 },
    /// `ENTER`
    Enter { paramter_count: u8, var_count: u16, name: Option<String> },
    /// `LEAVE`
    Leave(u8, u8),
    /// `LOAD`
    Load,
    /// `STORE`
    Store,
    /// `STORE_REV`
    StoreRev,
    /// `LOAD_N`
    LoadN,
    /// `STORE_N`
    StoreN,
    /// `ARRAY_U8`
    ArrayU8(u8),
    /// `ARRAY_U8_LOAD`
    ArrayU8Load(u8),
    /// `ARRAY_U8_STORE`
    ArrayU8Store(u8),
    /// `LOCAL_U8`
    LocalU8(u8),
    /// `LOCAL_U8_LOAD`
    LocalU8Load(u8),
    /// `LOCAL_U8_STORE`
    LocalU8Store(u8),
    /// `STATIC_U8`
    StaticU8(u8),
    /// `STATIC_U8_LOAD`
    StaticU8Load(u8),
    /// `STATIC_U8_STORE`
    StaticU8Store(u8),
    /// `IADDU8`
    AddU8(u8),
    /// `IMULU8`
    MultiplyU8(u8),
    /// `IOFFSET`
    Offset,
    /// `IOFFSET_U8`
    OffsetU8(u8),
    /// `IOFFSET_U8_LOAD`
    OffsetU8Load(u8),
    /// `IOFFSET_U8_STORE`
    OffsetU8Store(u8),
    /// `PUSH_CONST_S16`
    PushConstS16(i16),
    /// `ADD_S16`
    AddS16(i16),
    /// `IMULT_S16`
    MultiplyS16(i16),
    /// `IOFFSET_S16`
    OffsetS16(i16),
    /// `IOFFSET_S16_LOAD`
    OffsetS16Load(i16),
    /// `IOFFSET_S16_STORE`
    OffsetS16Store(i16),
    /// `ARRAY_U16`
    ArrayU16(u16),
    /// `ARRAY_U16_LOAD`
    ArrayU16Load(u16),
    /// `ARRAY_U16_STORE`
    ArrayU16Store(u16),
    /// `LOCAL_U16`
    LocalU16(u16),
    /// `LOCAL_U16_LOAD`
    LocalU16Load(u16),
    /// `LOCAL_U16_STORE`
    LocalU16Store(u16),
    /// `STATIC_U16`
    StaticU16(u16),
    /// `STATIC_U16_LOAD`
    StaticU16Load(u16),
    /// `STATIC_U16_STORE`
    StaticU16Store(u16),
    /// `GLOBAL_U16`
    GlobalU16(u16),
    /// `GLOBAL_U16_LOAD`
    GlobalU16Load(u16),
    /// `GLOBAL_U16_STORE`
    GlobalU16Store(u16),
    /// `J`
    Jump(u32),
    /// `JZ`
    JumpZero(u32),
    /// `IEQ_JZ`
    IfEqualJump(u32),
    /// `INE_JZ`
    IfNotEqualJump(u32),
    /// `IGT_JZ`
    IfGreaterThanJump(u32),
    /// `IGE_JZ`
    IfGreaterOrEqualJump(u32),
    /// `ILT_JZ`
    IfLowerThanJump(u32),
    /// `ILE_JZ`
    IfLowerOrEqualJump(u32),
    /// `CALL`
    FunctionCall(u32),
    /// `GLOBAL_U24`
    GlobalU24(u32),
    /// `GLOBAL_U24_LOAD`
    GlobalU24Load(u32),
    /// `GLOBAL_U24_STORE`
    GlobalU24Store(u32),
    /// `PUSH_CONST_U24`
    PushConstU24(u32),
    /// `SWITCH`
    Switch(Vec<(u32, u32)>),
    /// `STRING`
    String,
    /// `STRINGHASH`
    Stringhash,
    /// `TEXT_LABEL_ASSIGN_STRING`
    TextLabelAssignString(u8),
    /// `TEXT_LABEL_ASSIGN_INT`
    TextLabelAssignInt(u8),
    /// `TEXT_LABEL_APPEND_STRING`
    TextLabelAppendString(u8),
    /// `TEXT_LABEL_APPEND_INT`
    TextLabelAppendInt(u8),
    /// `TEXT_LABEL_COPY`
    TextLabelCopy,
    /// `CATCH`
    Catch,
    /// `THROW`
    Throw,
    /// `CALLINDIRECT`
    CallIndirect,
    /// `PUSH_CONST_M1`
    PushConstM1,
    /// `PUSH_CONST_0`
    PushConst0,
    /// `PUSH_CONST_1`
    PushConst1,
    /// `PUSH_CONST_2`
    PushConst2,
    /// `PUSH_CONST_3`
    PushConst3,
    /// `PUSH_CONST_4`
    PushConst4,
    /// `PUSH_CONST_5`
    PushConst5,
    /// `PUSH_CONST_6`
    PushConst6,
    /// `PUSH_CONST_7`
    PushConst7,
    /// `PUSH_CONST_FM1`
    PushConstFm1,
    /// `PUSH_CONST_F0`
    PushConstF0,
    /// `PUSH_CONST_F1`
    PushConstF1,
    /// `PUSH_CONST_F2`
    PushConstF2,
    /// `PUSH_CONST_F3`
    PushConstF3,
    /// `PUSH_CONST_F4`
    PushConstF4,
    /// `PUSH_CONST_F5`
    PushConstF5,
    /// `PUSH_CONST_F6`
    PushConstF6,
    /// `PUSH_CONST_F7`
    PushConstF7,
    /// `BITTEST`
    BitTest,
}

/// The number of opcodes of the older numbering.
pub const PARSER_OPCODE_COUNT: u8 = 128;

} // verus!
