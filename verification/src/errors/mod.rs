pub mod error;
pub mod exec_error;
pub mod parse_type_error;
pub mod type_parsing_error;
