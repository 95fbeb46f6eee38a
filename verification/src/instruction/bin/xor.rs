use crate::variable::value::{Value, Variable};
use vstd::prelude::*;

verus! {

/// The `^` operator on integers.
pub struct Xor;

impl Xor {
    /// `lhs ^ rhs` of two `int`s: their bitwise exclusive or.
    pub fn exec(lhs: &Variable, rhs: &Variable) -> (r: Variable)
        requires
            lhs@ is Int,
            rhs@ is Int,
        ensures
            r@ == Value::Int(lhs@->Int_0 ^ rhs@->Int_0),
    {
        match (lhs, rhs) {
            (Variable::Int(a), Variable::Int(b)) => Variable::Int(*a ^ *b),
            _ => Variable::Void,
        }
    }
}

} // verus!
