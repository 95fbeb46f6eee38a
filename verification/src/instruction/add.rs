use crate::variable::value::{type_of, Value, Variable};
use crate::variable::var_type::{Type, TypeView};
use vstd::prelude::*;

verus! {

/// `lhs + rhs` is well typed: both operands are `int`, both `float`, or both
/// `string`.
pub open spec fn add_can_be_used(lhs: TypeView, rhs: TypeView) -> bool {
    ||| lhs == TypeView::Int && rhs == TypeView::Int
    ||| lhs == TypeView::Float && rhs == TypeView::Float
    ||| lhs == TypeView::String && rhs == TypeView::String
}

/// Whether `lhs + rhs` is well typed.
pub fn can_be_used(lhs: &Type, rhs: &Type) -> (r: bool)
    ensures
        r == add_can_be_used(lhs@, rhs@),
{
    match (lhs, rhs) {
        (Type::Int, Type::Int) | (Type::Float, Type::Float) | (Type::String, Type::String) => true,
        _ => false,
    }
}

/// The type of `lhs + rhs`: the type of the left operand.
pub fn return_type(lhs: &Type, rhs: &Type) -> (r: Type)
    ensures
        r@ == lhs@,
{
    lhs.clone()
}

/// The `+` operator.
pub struct Add;

/// `lhs + rhs` has a value here: two integers whose sum fits in an `int`, or
/// two strings. (Two floats are added by the caller.)
pub open spec fn add_defined(lhs: Value, rhs: Value) -> bool {
    ||| (lhs matches Value::Int(a) && rhs matches Value::Int(b) && i64::MIN <= a + b <= i64::MAX)
    ||| (lhs is String && rhs is String)
}

/// The value of `lhs + rhs`: the sum of two integers, the concatenation of two
/// strings.
pub open spec fn add_value(lhs: Value, rhs: Value) -> Value {
    match (lhs, rhs) {
        (Value::Int(a), Value::Int(b)) => Value::Int((a + b) as i64),
        (Value::String(a), Value::String(b)) => Value::String(a + b),
        _ => lhs,
    }
}

/// The value of `lhs + rhs` has the type of the left operand, the type that
/// the check gives the operation.
pub proof fn lemma_add_well_typed(lhs: Value, rhs: Value)
    requires
        add_defined(lhs, rhs),
    ensures
        type_of(add_value(lhs, rhs)) == type_of(lhs),
{
}

impl Add {
    /// `lhs + rhs` of two integers or two strings.
    pub fn exec(lhs: &Variable, rhs: &Variable) -> (r: Variable)
        requires
            add_defined(lhs@, rhs@),
        ensures
            r@ == add_value(lhs@, rhs@),
    {
        match (lhs, rhs) {
            (Variable::Int(a), Variable::Int(b)) => Variable::Int(*a + *b),
            (Variable::String(a), Variable::String(b)) => {
                let mut s = a.clone();
                s.append(b.as_str());
                Variable::String(s)
            },
            _ => lhs.clone(),
        }
    }
}

} // verus!
