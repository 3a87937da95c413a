pub mod assembly_formatter;
pub mod code_builder;
pub mod cpp_formatter;
pub mod instruction_text;
pub mod text;
