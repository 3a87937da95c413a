pub mod assembly_parser;
pub mod instruction;
pub mod script;
pub mod script_header;
pub mod util;
