use crate::errors::exec_error::ExecError;
use vstd::prelude::*;

verus! {

/// Why the execution of a block stopped before its end: a `break`, a
/// `continue`, a `return`, or an error.
#[derive(Debug, PartialEq, Eq)]
pub enum ExecStop {
    Break,
    Continue,
    Return,
    Error(ExecError),
}

impl From<ExecError> for ExecStop {
    fn from(value: ExecError) -> (r: Self) {
        ExecStop::Error(value)
    }
}

impl vstd::std_specs::convert::FromSpecImpl<ExecError> for ExecStop {
    open spec fn obeys_from_spec() -> bool {
        true
    }

    open spec fn from_spec(v: ExecError) -> ExecStop {
        ExecStop::Error(v)
    }
}

} // verus!
