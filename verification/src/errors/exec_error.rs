use vstd::prelude::*;
use vstd::string::StringExecFns;

verus! {

/// Errors that can stop the execution of a script.
#[derive(Debug, PartialEq, Eq, Structural, Clone, Copy)]
pub enum ExecError {
    IndexOutOfBounds,
    NegativeLength,
    NegativeExponent,
    ZeroDivision,
    ZeroModulo,
    OverflowShift,
}

/// The message that describes an execution error.
pub open spec fn exec_error_message(e: ExecError) -> Seq<char> {
    match e {
        ExecError::IndexOutOfBounds => "index out of bounds"@,
        ExecError::NegativeLength => "length of an array cannot be negative"@,
        ExecError::NegativeExponent => "int value cannot be rised to a negative power"@,
        ExecError::ZeroDivision => "Cannot divide by 0"@,
        ExecError::ZeroModulo => "Cannot calculate the remainder with a divisor of 0"@,
        ExecError::OverflowShift => "Cannot shift with overflow"@,
    }
}

impl ExecError {
    /// The message that describes this error.
    pub fn to_string(&self) -> (r: String)
        ensures
            r@ == exec_error_message(*self),
    {
        let s = match self {
            ExecError::IndexOutOfBounds => "index out of bounds",
            ExecError::NegativeLength => "length of an array cannot be negative",
            ExecError::NegativeExponent => "int value cannot be rised to a negative power",
            ExecError::ZeroDivision => "Cannot divide by 0",
            ExecError::ZeroModulo => "Cannot calculate the remainder with a divisor of 0",
            ExecError::OverflowShift => "Cannot shift with overflow",
        };
        String::from_str(s)
    }
}

/// Each execution error has a message of its own.
pub proof fn lemma_exec_error_messages_differ(a: ExecError, b: ExecError)
    ensures
        a != b ==> exec_error_message(a) != exec_error_message(b),
{
    reveal_strlit("index out of bounds");
    reveal_strlit("length of an array cannot be negative");
    reveal_strlit("int value cannot be rised to a negative power");
    reveal_strlit("Cannot divide by 0");
    reveal_strlit("Cannot calculate the remainder with a divisor of 0");
    reveal_strlit("Cannot shift with overflow");
    assert("index out of bounds"@.len() == 19);
    assert("length of an array cannot be negative"@.len() == 37);
    assert("int value cannot be rised to a negative power"@.len() == 45);
    assert("Cannot divide by 0"@.len() == 18);
    assert("Cannot calculate the remainder with a divisor of 0"@.len() == 50);
    assert("Cannot shift with overflow"@.len() == 26);
}

} // verus!
