pub mod bin_not;
pub mod rshift;
pub mod xor;
pub mod bin_or;
use crate::variable::var_type::{Type, TypeView};
use vstd::prelude::*;

verus! {

/// A bitwise operation `lhs op rhs` is well typed: two `int`s, or an `[int]`
/// and an `int` in either order.
pub open spec fn bitwise_can_be_used(lhs: TypeView, rhs: TypeView) -> bool {
    ||| lhs == TypeView::Int && rhs == TypeView::Int
    ||| lhs == TypeView::Array(Box::new(TypeView::Int)) && rhs == TypeView::Int
    ||| lhs == TypeView::Int && rhs == TypeView::Array(Box::new(TypeView::Int))
}

/// Whether a bitwise operation can be applied to operands of these types.
pub fn can_be_used(lhs: &Type, rhs: &Type) -> (r: bool)
    ensures
        r == bitwise_can_be_used(lhs@, rhs@),
{
    match (lhs, rhs) {
        (Type::Int, Type::Int) => true,
        (Type::Array(t), Type::Int) | (Type::Int, Type::Array(t)) => {
            proof {
                assert(Type::Int@ == TypeView::Int);
            }
            t.equals(&Type::Int)
        },
        _ => false,
    }
}

} // verus!
