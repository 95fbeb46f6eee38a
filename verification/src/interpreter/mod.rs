pub mod arith;
pub mod eval;
pub mod exec;
pub mod instruction;
pub mod recreate;
pub mod state;
pub mod statement;
pub mod code;
pub mod reader;
pub mod script;
