use vstd::prelude::*;

verus! {

/// The opcodes of the script instruction set, in the order of their byte
/// values.
#[derive(Debug, Clone, Copy, PartialEq, Eq, Structural)]
pub enum Opcode {
    Nop,
    IntegerAdd,
    IntegerSubtract,
    IntegerMultiply,
    IntegerDivide,
    IntegerModulo,
    IntegerNot,
    IntegerNegate,
    IntegerEquals,
    IntegerNotEquals,
    IntegerGreaterThan,
    IntegerGreaterOrEqual,
    IntegerLowerThan,
    IntegerLowerOrEqual,
    FloatAdd,
    FloatSubtract,
    FloatMultiply,
    FloatDivide,
    FloatModule,
    FloatNegate,
    FloatEquals,
    FloatNotEquals,
    FloatGreaterThan,
    FloatGreaterOrEqual,
    FloatLowerThan,
    FloatLowerOrEqual,
    VectorAdd,
    VectorSubtract,
    VectorMultiply,
    VectorDivide,
    VectorNegate,
    BitwiseAnd,
    BitwiseOr,
    BitwiseXor,
    IntegerToFloat,
    FloatToInteger,
    FloatToVector,
    PushConstU8,
    PushConstU8U8,
    PushConstU8U8U8,
    PushConstU32,
    PushConstFloat,
    Dup,
    Drop,
    NativeCall,
    Enter,
    Leave,
    Load,
    Store,
    StoreRev,
    LoadN,
    StoreN,
    ArrayU8,
    ArrayU8Load,
    ArrayU8Store,
    LocalU8,
    LocalU8Load,
    LocalU8Store,
    StaticU8,
    StaticU8Load,
    StaticU8Store,
    AddU8,
    MultiplyU8,
    Offset,
    OffsetU8,
    OffsetU8Load,
    OffsetU8Store,
    PushConstS16,
    AddS16,
    MultiplyS16,
    OffsetS16,
    OffsetS16Load,
    OffsetS16Store,
    ArrayU16,
    ArrayU16Load,
    ArrayU16Store,
    LocalU16,
    LocalU16Load,
    LocalU16Store,
    StaticU16,
    StaticU16Load,
    StaticU16Store,
    GlobalU16,
    GlobalU16Load,
    GlobalU16Store,
    Jump,
    JumpZero,
    IfEqualJump,
    IfNotEqualJump,
    IfGreaterThanJump,
    IfGreaterOrEqualJump,
    IfLowerThanJump,
    IfLowerOrEqualJump,
    FunctionCall,
    StaticU24,
    StaticU24Load,
    StaticU24Store,
    GlobalU24,
    GlobalU24Load,
    GlobalU24Store,
    PushConstU24,
    Switch,
    String,
    StringHash,
    TextLabelAssignString,
    TextLabelAssignInt,
    TextLabelAppendString,
    TextLabelAppendInt,
    TextLabelCopy,
    Catch,
    Throw,
    CallIndirect,
    PushConstM1,
    PushConst0,
    PushConst1,
    PushConst2,
    PushConst3,
    PushConst4,
    PushConst5,
    PushConst6,
    PushConst7,
    PushConstFm1,
    PushConstF0,
    PushConstF1,
    PushConstF2,
    PushConstF3,
    PushConstF4,
    PushConstF5,
    PushConstF6,
    PushConstF7,
    BitTest,
}

/// The number of opcodes; bytes from this value on encode none.
pub const OPCODE_COUNT: u8 = 131;

impl Opcode {
    /// The byte that encodes this opcode.
    pub open spec fn code_spec(self) -> u8 {
        match self {
            Opcode::Nop => 0,
            Opcode::IntegerAdd => 1,
            Opcode::IntegerSubtract => 2,
            Opcode::IntegerMultiply => 3,
            Opcode::IntegerDivide => 4,
            Opcode::IntegerModulo => 5,
            Opcode::IntegerNot => 6,
            Opcode::IntegerNegate => 7,
            Opcode::IntegerEquals => 8,
            Opcode::IntegerNotEquals => 9,
            Opcode::IntegerGreaterThan => 10,
            Opcode::IntegerGreaterOrEqual => 11,
            Opcode::IntegerLowerThan => 12,
            Opcode::IntegerLowerOrEqual => 13,
            Opcode::FloatAdd => 14,
            Opcode::FloatSubtract => 15,
            Opcode::FloatMultiply => 16,
            Opcode::FloatDivide => 17,
            Opcode::FloatModule => 18,
            Opcode::FloatNegate => 19,
            Opcode::FloatEquals => 20,
            Opcode::FloatNotEquals => 21,
            Opcode::FloatGreaterThan => 22,
            Opcode::FloatGreaterOrEqual => 23,
            Opcode::FloatLowerThan => 24,
            Opcode::FloatLowerOrEqual => 25,
            Opcode::VectorAdd => 26,
            Opcode::VectorSubtract => 27,
            Opcode::VectorMultiply => 28,
            Opcode::VectorDivide => 29,
            Opcode::VectorNegate => 30,
            Opcode::BitwiseAnd => 31,
            Opcode::BitwiseOr => 32,
            Opcode::BitwiseXor => 33,
            Opcode::IntegerToFloat => 34,
            Opcode::FloatToInteger => 35,
            Opcode::FloatToVector => 36,
            Opcode::PushConstU8 => 37,
            Opcode::PushConstU8U8 => 38,
            Opcode::PushConstU8U8U8 => 39,
            Opcode::PushConstU32 => 40,
            Opcode::PushConstFloat => 41,
            Opcode::Dup => 42,
            Opcode::Drop => 43,
            Opcode::NativeCall => 44,
            Opcode::Enter => 45,
            Opcode::Leave => 46,
            Opcode::Load => 47,
            Opcode::Store => 48,
            Opcode::StoreRev => 49,
            Opcode::LoadN => 50,
            Opcode::StoreN => 51,
            Opcode::ArrayU8 => 52,
            Opcode::ArrayU8Load => 53,
            Opcode::ArrayU8Store => 54,
            Opcode::LocalU8 => 55,
            Opcode::LocalU8Load => 56,
            Opcode::LocalU8Store => 57,
            Opcode::StaticU8 => 58,
            Opcode::StaticU8Load => 59,
            Opcode::StaticU8Store => 60,
            Opcode::AddU8 => 61,
            Opcode::MultiplyU8 => 62,
            Opcode::Offset => 63,
            Opcode::OffsetU8 => 64,
            Opcode::OffsetU8Load => 65,
            Opcode::OffsetU8Store => 66,
            Opcode::PushConstS16 => 67,
            Opcode::AddS16 => 68,
            Opcode::MultiplyS16 => 69,
            Opcode::OffsetS16 => 70,
            Opcode::OffsetS16Load => 71,
            Opcode::OffsetS16Store => 72,
            Opcode::ArrayU16 => 73,
            Opcode::ArrayU16Load => 74,
            Opcode::ArrayU16Store => 75,
            Opcode::LocalU16 => 76,
            Opcode::LocalU16Load => 77,
            Opcode::LocalU16Store => 78,
            Opcode::StaticU16 => 79,
            Opcode::StaticU16Load => 80,
            Opcode::StaticU16Store => 81,
            Opcode::GlobalU16 => 82,
            Opcode::GlobalU16Load => 83,
            Opcode::GlobalU16Store => 84,
            Opcode::Jump => 85,
            Opcode::JumpZero => 86,
            Opcode::IfEqualJump => 87,
            Opcode::IfNotEqualJump => 88,
            Opcode::IfGreaterThanJump => 89,
            Opcode::IfGreaterOrEqualJump => 90,
            Opcode::IfLowerThanJump => 91,
            Opcode::IfLowerOrEqualJump => 92,
            Opcode::FunctionCall => 93,
            Opcode::StaticU24 => 94,
            Opcode::StaticU24Load => 95,
            Opcode::StaticU24Store => 96,
            Opcode::GlobalU24 => 97,
            Opcode::GlobalU24Load => 98,
            Opcode::GlobalU24Store => 99,
            Opcode::PushConstU24 => 100,
            Opcode::Switch => 101,
            Opcode::String => 102,
            Opcode::StringHash => 103,
            Opcode::TextLabelAssignString => 104,
            Opcode::TextLabelAssignInt => 105,
            Opcode::TextLabelAppendString => 106,
            Opcode::TextLabelAppendInt => 107,
            Opcode::TextLabelCopy => 108,
            Opcode::Catch => 109,
            Opcode::Throw => 110,
            Opcode::CallIndirect => 111,
            Opcode::PushConstM1 => 112,
            Opcode::PushConst0 => 113,
            Opcode::PushConst1 => 114,
            Opcode::PushConst2 => 115,
            Opcode::PushConst3 => 116,
            Opcode::PushConst4 => 117,
            Opcode::PushConst5 => 118,
            Opcode::PushConst6 => 119,
            Opcode::PushConst7 => 120,
            Opcode::PushConstFm1 => 121,
            Opcode::PushConstF0 => 122,
            Opcode::PushConstF1 => 123,
            Opcode::PushConstF2 => 124,
            Opcode::PushConstF3 => 125,
            Opcode::PushConstF4 => 126,
            Opcode::PushConstF5 => 127,
            Opcode::PushConstF6 => 128,
            Opcode::PushConstF7 => 129,
            Opcode::BitTest => 130,
        }
    }

    /// The byte that encodes this opcode.
    #[verifier::when_used_as_spec(code_spec)]
    pub fn code(self) -> (r: u8)
        ensures
            r == self.code_spec(),
    {
        match self {
            Opcode::Nop => 0,
            Opcode::IntegerAdd => 1,
            Opcode::IntegerSubtract => 2,
            Opcode::IntegerMultiply => 3,
            Opcode::IntegerDivide => 4,
            Opcode::IntegerModulo => 5,
            Opcode::IntegerNot => 6,
            Opcode::IntegerNegate => 7,
            Opcode::IntegerEquals => 8,
            Opcode::IntegerNotEquals => 9,
            Opcode::IntegerGreaterThan => 10,
            Opcode::IntegerGreaterOrEqual => 11,
            Opcode::IntegerLowerThan => 12,
            Opcode::IntegerLowerOrEqual => 13,
            Opcode::FloatAdd => 14,
            Opcode::FloatSubtract => 15,
            Opcode::FloatMultiply => 16,
            Opcode::FloatDivide => 17,
            Opcode::FloatModule => 18,
            Opcode::FloatNegate => 19,
            Opcode::FloatEquals => 20,
            Opcode::FloatNotEquals => 21,
            Opcode::FloatGreaterThan => 22,
            Opcode::FloatGreaterOrEqual => 23,
            Opcode::FloatLowerThan => 24,
            Opcode::FloatLowerOrEqual => 25,
            Opcode::VectorAdd => 26,
            Opcode::VectorSubtract => 27,
            Opcode::VectorMultiply => 28,
            Opcode::VectorDivide => 29,
            Opcode::VectorNegate => 30,
            Opcode::BitwiseAnd => 31,
            Opcode::BitwiseOr => 32,
            Opcode::BitwiseXor => 33,
            Opcode::IntegerToFloat => 34,
            Opcode::FloatToInteger => 35,
            Opcode::FloatToVector => 36,
            Opcode::PushConstU8 => 37,
            Opcode::PushConstU8U8 => 38,
            Opcode::PushConstU8U8U8 => 39,
            Opcode::PushConstU32 => 40,
            Opcode::PushConstFloat => 41,
            Opcode::Dup => 42,
            Opcode::Drop => 43,
            Opcode::NativeCall => 44,
            Opcode::Enter => 45,
            Opcode::Leave => 46,
            Opcode::Load => 47,
            Opcode::Store => 48,
            Opcode::StoreRev => 49,
            Opcode::LoadN => 50,
            Opcode::StoreN => 51,
            Opcode::ArrayU8 => 52,
            Opcode::ArrayU8Load => 53,
            Opcode::ArrayU8Store => 54,
            Opcode::LocalU8 => 55,
            Opcode::LocalU8Load => 56,
            Opcode::LocalU8Store => 57,
            Opcode::StaticU8 => 58,
            Opcode::StaticU8Load => 59,
            Opcode::StaticU8Store => 60,
            Opcode::AddU8 => 61,
            Opcode::MultiplyU8 => 62,
            Opcode::Offset => 63,
            Opcode::OffsetU8 => 64,
            Opcode::OffsetU8Load => 65,
            Opcode::OffsetU8Store => 66,
            Opcode::PushConstS16 => 67,
            Opcode::AddS16 => 68,
            Opcode::MultiplyS16 => 69,
            Opcode::OffsetS16 => 70,
            Opcode::OffsetS16Load => 71,
            Opcode::OffsetS16Store => 72,
            Opcode::ArrayU16 => 73,
            Opcode::ArrayU16Load => 74,
            Opcode::ArrayU16Store => 75,
            Opcode::LocalU16 => 76,
            Opcode::LocalU16Load => 77,
            Opcode::LocalU16Store => 78,
            Opcode::StaticU16 => 79,
            Opcode::StaticU16Load => 80,
            Opcode::StaticU16Store => 81,
            Opcode::GlobalU16 => 82,
            Opcode::GlobalU16Load => 83,
            Opcode::GlobalU16Store => 84,
            Opcode::Jump => 85,
            Opcode::JumpZero => 86,
            Opcode::IfEqualJump => 87,
            Opcode::IfNotEqualJump => 88,
            Opcode::IfGreaterThanJump => 89,
            Opcode::IfGreaterOrEqualJump => 90,
            Opcode::IfLowerThanJump => 91,
            Opcode::IfLowerOrEqualJump => 92,
            Opcode::FunctionCall => 93,
            Opcode::StaticU24 => 94,
            Opcode::StaticU24Load => 95,
            Opcode::StaticU24Store => 96,
            Opcode::GlobalU24 => 97,
            Opcode::GlobalU24Load => 98,
            Opcode::GlobalU24Store => 99,
            Opcode::PushConstU24 => 100,
            Opcode::Switch => 101,
            Opcode::String => 102,
            Opcode::StringHash => 103,
            Opcode::TextLabelAssignString => 104,
            Opcode::TextLabelAssignInt => 105,
            Opcode::TextLabelAppendString => 106,
            Opcode::TextLabelAppendInt => 107,
            Opcode::TextLabelCopy => 108,
            Opcode::Catch => 109,
            Opcode::Throw => 110,
            Opcode::CallIndirect => 111,
            Opcode::PushConstM1 => 112,
            Opcode::PushConst0 => 113,
            Opcode::PushConst1 => 114,
            Opcode::PushConst2 => 115,
            Opcode::PushConst3 => 116,
            Opcode::PushConst4 => 117,
            Opcode::PushConst5 => 118,
            Opcode::PushConst6 => 119,
            Opcode::PushConst7 => 120,
            Opcode::PushConstFm1 => 121,
            Opcode::PushConstF0 => 122,
            Opcode::PushConstF1 => 123,
            Opcode::PushConstF2 => 124,
            Opcode::PushConstF3 => 125,
            Opcode::PushConstF4 => 126,
            Opcode::PushConstF5 => 127,
            Opcode::PushConstF6 => 128,
            Opcode::PushConstF7 => 129,
            Opcode::BitTest => 130,
        }
    }

    /// The opcode that `byte` encodes, if any.
    pub open spec fn from_u8_spec(byte: u8) -> Option<Opcode> {
        match byte {
            0 => Some(Opcode::Nop),
            1 => Some(Opcode::IntegerAdd),
            2 => Some(Opcode::IntegerSubtract),
            3 => Some(Opcode::IntegerMultiply),
            4 => Some(Opcode::IntegerDivide),
            5 => Some(Opcode::IntegerModulo),
            6 => Some(Opcode::IntegerNot),
            7 => Some(Opcode::IntegerNegate),
            8 => Some(Opcode::IntegerEquals),
            9 => Some(Opcode::IntegerNotEquals),
            10 => Some(Opcode::IntegerGreaterThan),
            11 => Some(Opcode::IntegerGreaterOrEqual),
            12 => Some(Opcode::IntegerLowerThan),
            13 => Some(Opcode::IntegerLowerOrEqual),
            14 => Some(Opcode::FloatAdd),
            15 => Some(Opcode::FloatSubtract),
            16 => Some(Opcode::FloatMultiply),
            17 => Some(Opcode::FloatDivide),
            18 => Some(Opcode::FloatModule),
            19 => Some(Opcode::FloatNegate),
            20 => Some(Opcode::FloatEquals),
            21 => Some(Opcode::FloatNotEquals),
            22 => Some(Opcode::FloatGreaterThan),
            23 => Some(Opcode::FloatGreaterOrEqual),
            24 => Some(Opcode::FloatLowerThan),
            25 => Some(Opcode::FloatLowerOrEqual),
            26 => Some(Opcode::VectorAdd),
            27 => Some(Opcode::VectorSubtract),
            28 => Some(Opcode::VectorMultiply),
            29 => Some(Opcode::VectorDivide),
            30 => Some(Opcode::VectorNegate),
            31 => Some(Opcode::BitwiseAnd),
            32 => Some(Opcode::BitwiseOr),
            33 => Some(Opcode::BitwiseXor),
            34 => Some(Opcode::IntegerToFloat),
            35 => Some(Opcode::FloatToInteger),
            36 => Some(Opcode::FloatToVector),
            37 => Some(Opcode::PushConstU8),
            38 => Some(Opcode::PushConstU8U8),
            39 => Some(Opcode::PushConstU8U8U8),
            40 => Some(Opcode::PushConstU32),
            41 => Some(Opcode::PushConstFloat),
            42 => Some(Opcode::Dup),
            43 => Some(Opcode::Drop),
            44 => Some(Opcode::NativeCall),
            45 => Some(Opcode::Enter),
            46 => Some(Opcode::Leave),
            47 => Some(Opcode::Load),
            48 => Some(Opcode::Store),
            49 => Some(Opcode::StoreRev),
            50 => Some(Opcode::LoadN),
            51 => Some(Opcode::StoreN),
            52 => Some(Opcode::ArrayU8),
            53 => Some(Opcode::ArrayU8Load),
            54 => Some(Opcode::ArrayU8Store),
            55 => Some(Opcode::LocalU8),
            56 => Some(Opcode::LocalU8Load),
            57 => Some(Opcode::LocalU8Store),
            58 => Some(Opcode::StaticU8),
            59 => Some(Opcode::StaticU8Load),
            60 => Some(Opcode::StaticU8Store),
            61 => Some(Opcode::AddU8),
            62 => Some(Opcode::MultiplyU8),
            63 => Some(Opcode::Offset),
            64 => Some(Opcode::OffsetU8),
            65 => Some(Opcode::OffsetU8Load),
            66 => Some(Opcode::OffsetU8Store),
            67 => Some(Opcode::PushConstS16),
            68 => Some(Opcode::AddS16),
            69 => Some(Opcode::MultiplyS16),
            70 => Some(Opcode::OffsetS16),
            71 => Some(Opcode::OffsetS16Load),
            72 => Some(Opcode::OffsetS16Store),
            73 => Some(Opcode::ArrayU16),
            74 => Some(Opcode::ArrayU16Load),
            75 => Some(Opcode::ArrayU16Store),
            76 => Some(Opcode::LocalU16),
            77 => Some(Opcode::LocalU16Load),
            78 => Some(Opcode::LocalU16Store),
            79 => Some(Opcode::StaticU16),
            80 => Some(Opcode::StaticU16Load),
            81 => Some(Opcode::StaticU16Store),
            82 => Some(Opcode::GlobalU16),
            83 => Some(Opcode::GlobalU16Load),
            84 => Some(Opcode::GlobalU16Store),
            85 => Some(Opcode::Jump),
            86 => Some(Opcode::JumpZero),
            87 => Some(Opcode::IfEqualJump),
            88 => Some(Opcode::IfNotEqualJump),
            89 => Some(Opcode::IfGreaterThanJump),
            90 => Some(Opcode::IfGreaterOrEqualJump),
            91 => Some(Opcode::IfLowerThanJump),
            92 => Some(Opcode::IfLowerOrEqualJump),
            93 => Some(Opcode::FunctionCall),
            94 => Some(Opcode::StaticU24),
            95 => Some(Opcode::StaticU24Load),
            96 => Some(Opcode::StaticU24Store),
            97 => Some(Opcode::GlobalU24),
            98 => Some(Opcode::GlobalU24Load),
            99 => Some(Opcode::GlobalU24Store),
            100 => Some(Opcode::PushConstU24),
            101 => Some(Opcode::Switch),
            102 => Some(Opcode::String),
            103 => Some(Opcode::StringHash),
            104 => Some(Opcode::TextLabelAssignString),
            105 => Some(Opcode::TextLabelAssignInt),
            106 => Some(Opcode::TextLabelAppendString),
            107 => Some(Opcode::TextLabelAppendInt),
            108 => Some(Opcode::TextLabelCopy),
            109 => Some(Opcode::Catch),
            110 => Some(Opcode::Throw),
            111 => Some(Opcode::CallIndirect),
            112 => Some(Opcode::PushConstM1),
            113 => Some(Opcode::PushConst0),
            114 => Some(Opcode::PushConst1),
            115 => Some(Opcode::PushConst2),
            116 => Some(Opcode::PushConst3),
            117 => Some(Opcode::PushConst4),
            118 => Some(Opcode::PushConst5),
            119 => Some(Opcode::PushConst6),
            120 => Some(Opcode::PushConst7),
            121 => Some(Opcode::PushConstFm1),
            122 => Some(Opcode::PushConstF0),
            123 => Some(Opcode::PushConstF1),
            124 => Some(Opcode::PushConstF2),
            125 => Some(Opcode::PushConstF3),
            126 => Some(Opcode::PushConstF4),
            127 => Some(Opcode::PushConstF5),
            128 => Some(Opcode::PushConstF6),
            129 => Some(Opcode::PushConstF7),
            130 => Some(Opcode::BitTest),
            _ => None,
        }
    }

    /// The opcode that `byte` encodes, if any.
    #[verifier::when_used_as_spec(from_u8_spec)]
    pub fn from_u8(byte: u8) -> (r: Option<Opcode>)
        ensures
            r == Self::from_u8_spec(byte),
            r is Some <==> byte < OPCODE_COUNT,
            r matches Some(op) ==> op.code_spec() == byte,
    {
        match byte {
            0 => Some(Opcode::Nop),
            1 => Some(Opcode::IntegerAdd),
            2 => Some(Opcode::IntegerSubtract),
            3 => Some(Opcode::IntegerMultiply),
            4 => Some(Opcode::IntegerDivide),
            5 => Some(Opcode::IntegerModulo),
            6 => Some(Opcode::IntegerNot),
            7 => Some(Opcode::IntegerNegate),
            8 => Some(Opcode::IntegerEquals),
            9 => Some(Opcode::IntegerNotEquals),
            10 => Some(Opcode::IntegerGreaterThan),
            11 => Some(Opcode::IntegerGreaterOrEqual),
            12 => Some(Opcode::IntegerLowerThan),
            13 => Some(Opcode::IntegerLowerOrEqual),
            14 => Some(Opcode::FloatAdd),
            15 => Some(Opcode::FloatSubtract),
            16 => Some(Opcode::FloatMultiply),
            17 => Some(Opcode::FloatDivide),
            18 => Some(Opcode::FloatModule),
            19 => Some(Opcode::FloatNegate),
            20 => Some(Opcode::FloatEquals),
            21 => Some(Opcode::FloatNotEquals),
            22 => Some(Opcode::FloatGreaterThan),
            23 => Some(Opcode::FloatGreaterOrEqual),
            24 => Some(Opcode::FloatLowerThan),
            25 => Some(Opcode::FloatLowerOrEqual),
            26 => Some(Opcode::VectorAdd),
            27 => Some(Opcode::VectorSubtract),
            28 => Some(Opcode::VectorMultiply),
            29 => Some(Opcode::VectorDivide),
            30 => Some(Opcode::VectorNegate),
            31 => Some(Opcode::BitwiseAnd),
            32 => Some(Opcode::BitwiseOr),
            33 => Some(Opcode::BitwiseXor),
            34 => Some(Opcode::IntegerToFloat),
            35 => Some(Opcode::FloatToInteger),
            36 => Some(Opcode::FloatToVector),
            37 => Some(Opcode::PushConstU8),
            38 => Some(Opcode::PushConstU8U8),
            39 => Some(Opcode::PushConstU8U8U8),
            40 => Some(Opcode::PushConstU32),
            41 => Some(Opcode::PushConstFloat),
            42 => Some(Opcode::Dup),
            43 => Some(Opcode::Drop),
            44 => Some(Opcode::NativeCall),
            45 => Some(Opcode::Enter),
            46 => Some(Opcode::Leave),
            47 => Some(Opcode::Load),
            48 => Some(Opcode::Store),
            49 => Some(Opcode::StoreRev),
            50 => Some(Opcode::LoadN),
            51 => Some(Opcode::StoreN),
            52 => Some(Opcode::ArrayU8),
            53 => Some(Opcode::ArrayU8Load),
            54 => Some(Opcode::ArrayU8Store),
            55 => Some(Opcode::LocalU8),
            56 => Some(Opcode::LocalU8Load),
            57 => Some(Opcode::LocalU8Store),
            58 => Some(Opcode::StaticU8),
            59 => Some(Opcode::StaticU8Load),
            60 => Some(Opcode::StaticU8Store),
            61 => Some(Opcode::AddU8),
            62 => Some(Opcode::MultiplyU8),
            63 => Some(Opcode::Offset),
            64 => Some(Opcode::OffsetU8),
            65 => Some(Opcode::OffsetU8Load),
            66 => Some(Opcode::OffsetU8Store),
            67 => Some(Opcode::PushConstS16),
            68 => Some(Opcode::AddS16),
            69 => Some(Opcode::MultiplyS16),
            70 => Some(Opcode::OffsetS16),
            71 => Some(Opcode::OffsetS16Load),
            72 => Some(Opcode::OffsetS16Store),
            73 => Some(Opcode::ArrayU16),
            74 => Some(Opcode::ArrayU16Load),
            75 => Some(Opcode::ArrayU16Store),
            76 => Some(Opcode::LocalU16),
            77 => Some(Opcode::LocalU16Load),
            78 => Some(Opcode::LocalU16Store),
            79 => Some(Opcode::StaticU16),
            80 => Some(Opcode::StaticU16Load),
            81 => Some(Opcode::StaticU16Store),
            82 => Some(Opcode::GlobalU16),
            83 => Some(Opcode::GlobalU16Load),
            84 => Some(Opcode::GlobalU16Store),
            85 => Some(Opcode::Jump),
            86 => Some(Opcode::JumpZero),
            87 => Some(Opcode::IfEqualJump),
            88 => Some(Opcode::IfNotEqualJump),
            89 => Some(Opcode::IfGreaterThanJump),
            90 => Some(Opcode::IfGreaterOrEqualJump),
            91 => Some(Opcode::IfLowerThanJump),
            92 => Some(Opcode::IfLowerOrEqualJump),
            93 => Some(Opcode::FunctionCall),
            94 => Some(Opcode::StaticU24),
            95 => Some(Opcode::StaticU24Load),
            96 => Some(Opcode::StaticU24Store),
            97 => Some(Opcode::GlobalU24),
            98 => Some(Opcode::GlobalU24Load),
            99 => Some(Opcode::GlobalU24Store),
            100 => Some(Opcode::PushConstU24),
            101 => Some(Opcode::Switch),
            102 => Some(Opcode::String),
            103 => Some(Opcode::StringHash),
            104 => Some(Opcode::TextLabelAssignString),
            105 => Some(Opcode::TextLabelAssignInt),
            106 => Some(Opcode::TextLabelAppendString),
            107 => Some(Opcode::TextLabelAppendInt),
            108 => Some(Opcode::TextLabelCopy),
            109 => Some(Opcode::Catch),
            110 => Some(Opcode::Throw),
            111 => Some(Opcode::CallIndirect),
            112 => Some(Opcode::PushConstM1),
            113 => Some(Opcode::PushConst0),
            114 => Some(Opcode::PushConst1),
            115 => Some(Opcode::PushConst2),
            116 => Some(Opcode::PushConst3),
            117 => Some(Opcode::PushConst4),
            118 => Some(Opcode::PushConst5),
            119 => Some(Opcode::PushConst6),
            120 => Some(Opcode::PushConst7),
            121 => Some(Opcode::PushConstFm1),
            122 => Some(Opcode::PushConstF0),
            123 => Some(Opcode::PushConstF1),
            124 => Some(Opcode::PushConstF2),
            125 => Some(Opcode::PushConstF3),
            126 => Some(Opcode::PushConstF4),
            127 => Some(Opcode::PushConstF5),
            128 => Some(Opcode::PushConstF6),
            129 => Some(Opcode::PushConstF7),
            130 => Some(Opcode::BitTest),
            _ => None,
        }
    }

    /// The size in bytes of an instruction with this opcode whose encoding
    /// starts `bytes`: the opcode and its operands. The name of `Enter` and
    /// the cases of `Switch` count too; a length or count byte that is
    /// missing counts as zero.
    pub open spec fn size_spec(self, bytes: Seq<u8>) -> nat {
        1 + self.operand_size_spec(bytes)
    }

    /// The size in bytes of the operands of an instruction with this opcode
    /// whose encoding starts `bytes`.
    pub open spec fn operand_size_spec(self, bytes: Seq<u8>) -> nat {
        match self {
            Opcode::Enter => 4 + if bytes.len() > 4 {
                bytes[4] as nat
            } else {
                0
            },
            Opcode::Switch => 1 + 6 * if bytes.len() > 1 {
                bytes[1] as nat
            } else {
                0
            },
            Opcode::Nop
            | Opcode::IntegerAdd
            | Opcode::IntegerSubtract
            | Opcode::IntegerMultiply
            | Opcode::IntegerDivide
            | Opcode::IntegerModulo
            | Opcode::IntegerNot
            | Opcode::IntegerNegate
            | Opcode::IntegerEquals
            | Opcode::IntegerNotEquals
            | Opcode::IntegerGreaterThan
            | Opcode::IntegerGreaterOrEqual
            | Opcode::IntegerLowerThan
            | Opcode::IntegerLowerOrEqual
            | Opcode::FloatAdd
            | Opcode::FloatSubtract
            | Opcode::FloatMultiply
            | Opcode::FloatDivide
            | Opcode::FloatModule
            | Opcode::FloatNegate
            | Opcode::FloatEquals
            | Opcode::FloatNotEquals
            | Opcode::FloatGreaterThan
            | Opcode::FloatGreaterOrEqual
            | Opcode::FloatLowerThan
            | Opcode::FloatLowerOrEqual
            | Opcode::VectorAdd
            | Opcode::VectorSubtract
            | Opcode::VectorMultiply
            | Opcode::VectorDivide
            | Opcode::VectorNegate
            | Opcode::BitwiseAnd
            | Opcode::BitwiseOr
            | Opcode::BitwiseXor
            | Opcode::IntegerToFloat
            | Opcode::FloatToInteger
            | Opcode::FloatToVector
            | Opcode::Dup
            | Opcode::Drop
            | Opcode::Load
            | Opcode::Store
            | Opcode::StoreRev
            | Opcode::LoadN
            | Opcode::StoreN
            | Opcode::Offset
            | Opcode::String
            | Opcode::StringHash
            | Opcode::TextLabelCopy
            | Opcode::Catch
            | Opcode::Throw
            | Opcode::CallIndirect
            | Opcode::PushConstM1
            | Opcode::PushConst0
            | Opcode::PushConst1
            | Opcode::PushConst2
            | Opcode::PushConst3
            | Opcode::PushConst4
            | Opcode::PushConst5
            | Opcode::PushConst6
            | Opcode::PushConst7
            | Opcode::PushConstFm1
            | Opcode::PushConstF0
            | Opcode::PushConstF1
            | Opcode::PushConstF2
            | Opcode::PushConstF3
            | Opcode::PushConstF4
            | Opcode::PushConstF5
            | Opcode::PushConstF6
            | Opcode::PushConstF7
            | Opcode::BitTest => 0,
            Opcode::PushConstU8
            | Opcode::ArrayU8
            | Opcode::ArrayU8Load
            | Opcode::ArrayU8Store
            | Opcode::LocalU8
            | Opcode::LocalU8Load
            | Opcode::LocalU8Store
            | Opcode::StaticU8
            | Opcode::StaticU8Load
            | Opcode::StaticU8Store
            | Opcode::AddU8
            | Opcode::MultiplyU8
            | Opcode::OffsetU8
            | Opcode::OffsetU8Load
            | Opcode::OffsetU8Store
            | Opcode::TextLabelAssignString
            | Opcode::TextLabelAssignInt
            | Opcode::TextLabelAppendString
            | Opcode::TextLabelAppendInt => 1,
            Opcode::PushConstU8U8
            | Opcode::Leave
            | Opcode::PushConstS16
            | Opcode::AddS16
            | Opcode::MultiplyS16
            | Opcode::OffsetS16
            | Opcode::OffsetS16Load
            | Opcode::OffsetS16Store
            | Opcode::ArrayU16
            | Opcode::ArrayU16Load
            | Opcode::ArrayU16Store
            | Opcode::LocalU16
            | Opcode::LocalU16Load
            | Opcode::LocalU16Store
            | Opcode::StaticU16
            | Opcode::StaticU16Load
            | Opcode::StaticU16Store
            | Opcode::GlobalU16
            | Opcode::GlobalU16Load
            | Opcode::GlobalU16Store
            | Opcode::Jump
            | Opcode::JumpZero
            | Opcode::IfEqualJump
            | Opcode::IfNotEqualJump
            | Opcode::IfGreaterThanJump
            | Opcode::IfGreaterOrEqualJump
            | Opcode::IfLowerThanJump
            | Opcode::IfLowerOrEqualJump => 2,
            Opcode::PushConstU8U8U8
            | Opcode::NativeCall
            | Opcode::FunctionCall
            | Opcode::StaticU24
            | Opcode::StaticU24Load
            | Opcode::StaticU24Store
            | Opcode::GlobalU24
            | Opcode::GlobalU24Load
            | Opcode::GlobalU24Store
            | Opcode::PushConstU24 => 3,
            Opcode::PushConstU32
            | Opcode::PushConstFloat => 4,
        }
    }

    /// The size in bytes of an instruction with this opcode whose encoding
    /// starts `bytes`.
    pub fn size(self, bytes: &[u8]) -> (r: usize)
        ensures
            r == self.size_spec(bytes@),
    {
        match self {
            Opcode::Enter => 5 + if bytes.len() > 4 {
                bytes[4] as usize
            } else {
                0
            },
            Opcode::Switch => 2 + 6 * if bytes.len() > 1 {
                bytes[1] as usize
            } else {
                0
            },
            Opcode::Nop
            | Opcode::IntegerAdd
            | Opcode::IntegerSubtract
            | Opcode::IntegerMultiply
            | Opcode::IntegerDivide
            | Opcode::IntegerModulo
            | Opcode::IntegerNot
            | Opcode::IntegerNegate
            | Opcode::IntegerEquals
            | Opcode::IntegerNotEquals
            | Opcode::IntegerGreaterThan
            | Opcode::IntegerGreaterOrEqual
            | Opcode::IntegerLowerThan
            | Opcode::IntegerLowerOrEqual
            | Opcode::FloatAdd
            | Opcode::FloatSubtract
            | Opcode::FloatMultiply
            | Opcode::FloatDivide
            | Opcode::FloatModule
            | Opcode::FloatNegate
            | Opcode::FloatEquals
            | Opcode::FloatNotEquals
            | Opcode::FloatGreaterThan
            | Opcode::FloatGreaterOrEqual
            | Opcode::FloatLowerThan
            | Opcode::FloatLowerOrEqual
            | Opcode::VectorAdd
            | Opcode::VectorSubtract
            | Opcode::VectorMultiply
            | Opcode::VectorDivide
            | Opcode::VectorNegate
            | Opcode::BitwiseAnd
            | Opcode::BitwiseOr
            | Opcode::BitwiseXor
            | Opcode::IntegerToFloat
            | Opcode::FloatToInteger
            | Opcode::FloatToVector
            | Opcode::Dup
            | Opcode::Drop
            | Opcode::Load
            | Opcode::Store
            | Opcode::StoreRev
            | Opcode::LoadN
            | Opcode::StoreN
            | Opcode::Offset
            | Opcode::String
            | Opcode::StringHash
            | Opcode::TextLabelCopy
            | Opcode::Catch
            | Opcode::Throw
            | Opcode::CallIndirect
            | Opcode::PushConstM1
            | Opcode::PushConst0
            | Opcode::PushConst1
            | Opcode::PushConst2
            | Opcode::PushConst3
            | Opcode::PushConst4
            | Opcode::PushConst5
            | Opcode::PushConst6
            | Opcode::PushConst7
            | Opcode::PushConstFm1
            | Opcode::PushConstF0
            | Opcode::PushConstF1
            | Opcode::PushConstF2
            | Opcode::PushConstF3
            | Opcode::PushConstF4
            | Opcode::PushConstF5
            | Opcode::PushConstF6
            | Opcode::PushConstF7
            | Opcode::BitTest => 1,
            Opcode::PushConstU8
            | Opcode::ArrayU8
            | Opcode::ArrayU8Load
            | Opcode::ArrayU8Store
            | Opcode::LocalU8
            | Opcode::LocalU8Load
            | Opcode::LocalU8Store
            | Opcode::StaticU8
            | Opcode::StaticU8Load
            | Opcode::StaticU8Store
            | Opcode::AddU8
            | Opcode::MultiplyU8
            | Opcode::OffsetU8
            | Opcode::OffsetU8Load
            | Opcode::OffsetU8Store
            | Opcode::TextLabelAssignString
            | Opcode::TextLabelAssignInt
            | Opcode::TextLabelAppendString
            | Opcode::TextLabelAppendInt => 2,
            Opcode::PushConstU8U8
            | Opcode::Leave
            | Opcode::PushConstS16
            | Opcode::AddS16
            | Opcode::MultiplyS16
            | Opcode::OffsetS16
            | Opcode::OffsetS16Load
            | Opcode::OffsetS16Store
            | Opcode::ArrayU16
            | Opcode::ArrayU16Load
            | Opcode::ArrayU16Store
            | Opcode::LocalU16
            | Opcode::LocalU16Load
            | Opcode::LocalU16Store
            | Opcode::StaticU16
            | Opcode::StaticU16Load
            | Opcode::StaticU16Store
            | Opcode::GlobalU16
            | Opcode::GlobalU16Load
            | Opcode::GlobalU16Store
            | Opcode::Jump
            | Opcode::JumpZero
            | Opcode::IfEqualJump
            | Opcode::IfNotEqualJump
            | Opcode::IfGreaterThanJump
            | Opcode::IfGreaterOrEqualJump
            | Opcode::IfLowerThanJump
            | Opcode::IfLowerOrEqualJump => 3,
            Opcode::PushConstU8U8U8
            | Opcode::NativeCall
            | Opcode::FunctionCall
            | Opcode::StaticU24
            | Opcode::StaticU24Load
            | Opcode::StaticU24Store
            | Opcode::GlobalU24
            | Opcode::GlobalU24Load
            | Opcode::GlobalU24Store
            | Opcode::PushConstU24 => 4,
            Opcode::PushConstU32
            | Opcode::PushConstFloat => 5,
        }
    }
}

} // verus!
