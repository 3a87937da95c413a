pub mod decompiled_function;
pub mod statement;
