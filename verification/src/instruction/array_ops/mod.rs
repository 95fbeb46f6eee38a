pub mod call;
pub mod filter;
pub mod map;
pub mod reduce;
pub mod type_filter;
