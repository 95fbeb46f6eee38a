//! SimpleSL: the types, values and checks of a small scripting language.
pub mod bin_operator;
pub mod errors;
pub mod function;
pub mod instruction;
pub mod interpreter;
pub mod text;
pub mod variable;
