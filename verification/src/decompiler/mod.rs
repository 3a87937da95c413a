pub mod cfg_reducer;
pub mod control_flow;
pub mod decompiled;
pub mod dominance;
pub mod function;
pub mod function_graph;
pub mod graph;
pub mod node_code;
pub mod script_globals;
pub mod script_statics;
pub mod stack;
pub mod stack_entry;
pub mod structs;
pub mod value_type;
