pub mod check_args;
pub mod function;
pub mod param;
pub mod native_function;
