pub mod literal;
pub mod type_parse;
pub mod type_text;
pub mod value;
pub mod var_type;
pub mod type_round_trip;
