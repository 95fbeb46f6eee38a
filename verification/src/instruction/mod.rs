pub mod exec_stop;
pub mod array;
pub mod array_repeat;
pub mod add;
pub mod array_ops;
pub mod at;
pub mod bin;
pub mod bin_op;
