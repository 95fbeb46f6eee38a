use crate::errors::exec_error::ExecError;
use crate::variable::value::{Value, Variable};
use vstd::prelude::*;

verus! {

/// The `>>` operator on integers.
pub struct RShift;

/// A shift by `n` bits is allowed: `0 <= n <= 63`.
pub open spec fn shift_in_range(n: i64) -> bool {
    0 <= n <= 63
}

impl RShift {
    /// `lhs >> rhs`: an arithmetic shift of an `int` by 0 to 63 bits; any
    /// other shift is an overflow.
    pub fn exec(lhs: &Variable, rhs: &Variable) -> (r: Result<Variable, ExecError>)
        requires
            rhs@ is Int,
            shift_in_range(rhs@->Int_0) ==> lhs@ is Int,
        ensures
            !shift_in_range(rhs@->Int_0) ==> r == Err::<Variable, ExecError>(ExecError::OverflowShift),
            shift_in_range(rhs@->Int_0) ==> (r matches Ok(v) && v@ == Value::Int(
                lhs@->Int_0 >> (rhs@->Int_0 as u64),
            )),
    {
        let n: i64 = match rhs {
            Variable::Int(n) => *n,
            _ => 0,
        };
        if n < 0 || n > 63 {
            return Err(ExecError::OverflowShift);
        }
        match lhs {
            Variable::Int(a) => {
                let s: u64 = n as u64;
                Ok(Variable::Int(*a >> s))
            },
            _ => Err(ExecError::OverflowShift),
        }
    }
}

} // verus!
