pub mod cli;
pub mod common;
pub mod decompiler;
pub mod disassembler;
pub mod formatters;
pub mod parser;
pub mod resources;
pub mod script;
