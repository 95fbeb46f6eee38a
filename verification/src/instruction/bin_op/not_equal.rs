use crate::variable::value::{value_eq, Value, Variable};
use vstd::prelude::*;

verus! {

/// `lhs != rhs`.
pub fn exec(lhs: Variable, rhs: Variable) -> (r: Variable)
    ensures
        r@ == Value::Bool(!value_eq(lhs@, rhs@)),
{
    Variable::Bool(!lhs.equals(&rhs))
}

} // verus!
