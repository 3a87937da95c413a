pub mod instruction;
pub mod opcodes;
