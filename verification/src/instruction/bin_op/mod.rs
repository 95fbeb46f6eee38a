pub mod equal;
pub mod not_equal;

use crate::bin_operator::BinOperator;
use crate::errors::error::Error;
use crate::instruction::add::{self, add_can_be_used};
use crate::instruction::array_ops::filter::{filter_can_be_used, Filter};
use crate::instruction::array_ops::map::{map_can_be_used, MapOp};
use crate::instruction::bin::{self, bitwise_can_be_used};
use crate::variable::var_type::{
    index_result, return_type as result_of_call, type_matches, union, vec2, Type, TypeView,
};
use vstd::prelude::*;

verus! {

/// `(int, int)`: the operand types of the operators on integers only.
pub open spec fn accepted_int_type() -> TypeView {
    TypeView::Tuple(seq![TypeView::Int, TypeView::Int])
}

/// `(int | [int], int) | (int, [int]) | (float | [float], float) | (float, [float])`:
/// the operand types of the arithmetic operators.
pub open spec fn accepted_num_type() -> TypeView {
    let int_array = TypeView::Array(Box::new(TypeView::Int));
    let float_array = TypeView::Array(Box::new(TypeView::Float));
    union(
        union(
            union(
                TypeView::Tuple(seq![union(TypeView::Int, int_array), TypeView::Int]),
                TypeView::Tuple(seq![TypeView::Int, int_array]),
            ),
            TypeView::Tuple(seq![union(TypeView::Float, float_array), TypeView::Float]),
        ),
        TypeView::Tuple(seq![TypeView::Float, float_array]),
    )
}

pub open spec fn spec_can_be_used_int(lhs: TypeView, rhs: TypeView) -> bool {
    type_matches(TypeView::Tuple(seq![lhs, rhs]), accepted_int_type())
}

pub open spec fn spec_can_be_used_num(lhs: TypeView, rhs: TypeView) -> bool {
    type_matches(TypeView::Tuple(seq![lhs, rhs]), accepted_num_type())
}

/// The type of `lhs op rhs` for the arithmetic operators: the left type if it
/// is an array type, the right type otherwise.
pub open spec fn spec_return_type(lhs: TypeView, rhs: TypeView) -> TypeView {
    if type_matches(TypeView::Array(Box::new(TypeView::Never)), lhs) {
        lhs
    } else {
        rhs
    }
}

/// Which operation an assignment operator applies before it assigns.
pub enum AssignKind {
    /// `=`
    Plain,
    /// `+=`
    Add,
    /// `-=`, `*=`, `/=`, `**=`
    Num,
    /// `%=`, `<<=`, `>>=`
    Int,
    /// `&=`, `|=`, `^=`
    Bitwise,
}

pub open spec fn assign_op_can_be_used(kind: AssignKind, lhs: TypeView, rhs: TypeView) -> bool {
    match kind {
        AssignKind::Plain => true,
        AssignKind::Add => add_can_be_used(lhs, rhs),
        AssignKind::Num => spec_can_be_used_num(lhs, rhs),
        AssignKind::Int => spec_can_be_used_int(lhs, rhs),
        AssignKind::Bitwise => bitwise_can_be_used(lhs, rhs),
    }
}

pub open spec fn assign_op_result(kind: AssignKind, lhs: TypeView, rhs: TypeView) -> TypeView {
    match kind {
        AssignKind::Plain => rhs,
        AssignKind::Add => lhs,
        _ => spec_return_type(lhs, rhs),
    }
}

/// `lhs op= rhs` is well typed: `lhs` is `mut T`, the operation applies to a
/// `T` and `rhs`, and its result is a `T` again.
pub open spec fn assign_can_be_used(kind: AssignKind, lhs: TypeView, rhs: TypeView) -> bool {
    match lhs {
        TypeView::Mut(t) => assign_op_can_be_used(kind, *t, rhs) && type_matches(
            assign_op_result(kind, *t, rhs),
            *t,
        ),
        _ => false,
    }
}

/// `lhs op rhs` is well typed.
pub open spec fn spec_can_be_used(lhs: TypeView, rhs: TypeView, op: BinOperator) -> bool {
    match op {
        BinOperator::Add => add_can_be_used(lhs, rhs),
        BinOperator::Subtract | BinOperator::Multiply | BinOperator::Divide | BinOperator::Pow => {
            spec_can_be_used_num(lhs, rhs)
        },
        BinOperator::Lower
        | BinOperator::LowerOrEqual
        | BinOperator::Greater
        | BinOperator::GreaterOrEqual => spec_can_be_used_num(lhs, rhs),
        BinOperator::LShift | BinOperator::RShift | BinOperator::Modulo => spec_can_be_used_int(
            lhs,
            rhs,
        ),
        BinOperator::Equal | BinOperator::NotEqual | BinOperator::At | BinOperator::FunctionCall => {
            true
        },
        BinOperator::And | BinOperator::Or => lhs == TypeView::Bool && rhs == TypeView::Bool,
        BinOperator::BitwiseAnd | BinOperator::BitwiseOr | BinOperator::Xor => bitwise_can_be_used(
            lhs,
            rhs,
        ),
        BinOperator::Filter => filter_can_be_used(lhs, rhs),
        BinOperator::MapOp => map_can_be_used(lhs, rhs),
        BinOperator::Assign => assign_can_be_used(AssignKind::Plain, lhs, rhs),
        BinOperator::AssignAdd => assign_can_be_used(AssignKind::Add, lhs, rhs),
        BinOperator::AssignSubtract
        | BinOperator::AssignMultiply
        | BinOperator::AssignDivide
        | BinOperator::AssignPow => assign_can_be_used(AssignKind::Num, lhs, rhs),
        BinOperator::AssignModulo
        | BinOperator::AssignLShift
        | BinOperator::AssignRShift => assign_can_be_used(AssignKind::Int, lhs, rhs),
        BinOperator::AssignBitwiseAnd
        | BinOperator::AssignBitwiseOr
        | BinOperator::AssignXor => assign_can_be_used(AssignKind::Bitwise, lhs, rhs),
    }
}

/// The type `(int, int)`.
pub fn accepted_int() -> (r: Type)
    ensures
        r@ == accepted_int_type(),
{
    Type::tuple(vec2(Type::Int, Type::Int))
}

/// The type `(int | [int], int) | (int, [int]) | (float | [float], float) | (float, [float])`.
pub fn accepted_num() -> (r: Type)
    ensures
        r@ == accepted_num_type(),
{
    let a = Type::tuple(vec2(Type::Int.union(Type::array(Type::Int)), Type::Int));
    let b = Type::tuple(vec2(Type::Int, Type::array(Type::Int)));
    let c = Type::tuple(vec2(Type::Float.union(Type::array(Type::Float)), Type::Float));
    let d = Type::tuple(vec2(Type::Float, Type::array(Type::Float)));
    proof {
        assert(Type::Int@ == TypeView::Int);
        assert(Type::Float@ == TypeView::Float);
    }
    a.union(b).union(c).union(d)
}

/// Whether the operands of an operator on integers only have acceptable types.
pub fn can_be_used_int(lhs: Type, rhs: Type) -> (r: bool)
    ensures
        r == spec_can_be_used_int(lhs@, rhs@),
{
    Type::tuple(vec2(lhs, rhs)).matches(&accepted_int())
}

/// Whether the operands of an arithmetic operator have acceptable types.
pub fn can_be_used_num(lhs: Type, rhs: Type) -> (r: bool)
    ensures
        r == spec_can_be_used_num(lhs@, rhs@),
{
    Type::tuple(vec2(lhs, rhs)).matches(&accepted_num())
}

/// Whether the operands of a comparison have acceptable types; comparisons
/// accept the operand types of the arithmetic operators.
pub fn can_be_used_comp(lhs: Type, rhs: Type) -> (r: bool)
    ensures
        r == spec_can_be_used_num(lhs@, rhs@),
{
    Type::tuple(vec2(lhs, rhs)).matches(&accepted_num())
}

/// The type of an arithmetic operation: the left type if it is an array type,
/// the right type otherwise.
pub fn return_type(lhs: &Type, rhs: &Type) -> (r: Type)
    ensures
        r@ == spec_return_type(lhs@, rhs@),
{
    let empty = Type::array(Type::Never);
    proof {
        assert(Type::Never@ == TypeView::Never);
    }
    if empty.matches(lhs) {
        lhs.clone()
    } else {
        rhs.clone()
    }
}

fn assign_can_be_used_num(a: &Type, b: &Type) -> (r: bool)
    ensures
        r == spec_can_be_used_num(a@, b@),
{
    can_be_used_num(a.clone(), b.clone())
}

fn assign_can_be_used_int(a: &Type, b: &Type) -> (r: bool)
    ensures
        r == spec_can_be_used_int(a@, b@),
{
    can_be_used_int(a.clone(), b.clone())
}

fn bitwise_can_be_used_fn(a: &Type, b: &Type) -> (r: bool)
    ensures
        r == bitwise_can_be_used(a@, b@),
{
    bin::can_be_used(a, b)
}

/// Whether `lhs op= rhs` is well typed.
fn assign_check(kind: AssignKind, lhs: &Type, rhs: &Type) -> (r: bool)
    ensures
        r == assign_can_be_used(kind, lhs@, rhs@),
{
    let t = match lhs {
        Type::Mut(t) => t,
        _ => return false,
    };
    let (ok, result) = match kind {
        AssignKind::Plain => (true, rhs.clone()),
        AssignKind::Add => (add::can_be_used(t, rhs), add::return_type(t, rhs)),
        AssignKind::Num => (assign_can_be_used_num(t, rhs), return_type(t, rhs)),
        AssignKind::Int => (assign_can_be_used_int(t, rhs), return_type(t, rhs)),
        AssignKind::Bitwise => (bitwise_can_be_used_fn(t, rhs), return_type(t, rhs)),
    };
    ok && result.matches(t)
}

/// Whether the binary operator `op` can be applied to operands of the given types.
pub fn can_be_used(lhs: &Type, rhs: &Type, op: BinOperator) -> (r: bool)
    ensures
        r == spec_can_be_used(lhs@, rhs@, op),
{
    match op {
        BinOperator::Add => add::can_be_used(lhs, rhs),
        BinOperator::Subtract | BinOperator::Multiply | BinOperator::Divide | BinOperator::Pow => {
            can_be_used_num(lhs.clone(), rhs.clone())
        },
        BinOperator::Lower
        | BinOperator::LowerOrEqual
        | BinOperator::Greater
        | BinOperator::GreaterOrEqual => can_be_used_comp(lhs.clone(), rhs.clone()),
        BinOperator::LShift | BinOperator::RShift | BinOperator::Modulo => can_be_used_int(
            lhs.clone(),
            rhs.clone(),
        ),
        BinOperator::Equal | BinOperator::NotEqual | BinOperator::At | BinOperator::FunctionCall => {
            true
        },
        BinOperator::And | BinOperator::Or => {
            proof {
                assert(Type::Bool@ == TypeView::Bool);
            }
            lhs.equals(&Type::Bool) && rhs.equals(&Type::Bool)
        },
        BinOperator::BitwiseAnd | BinOperator::BitwiseOr | BinOperator::Xor => bin::can_be_used(
            lhs,
            rhs,
        ),
        BinOperator::Filter => Filter::can_be_used(lhs, rhs),
        BinOperator::MapOp => MapOp::can_be_used(lhs, rhs),
        BinOperator::Assign => assign_check(AssignKind::Plain, lhs, rhs),
        BinOperator::AssignAdd => assign_check(AssignKind::Add, lhs, rhs),
        BinOperator::AssignSubtract
        | BinOperator::AssignMultiply
        | BinOperator::AssignDivide
        | BinOperator::AssignPow => assign_check(AssignKind::Num, lhs, rhs),
        BinOperator::AssignModulo
        | BinOperator::AssignLShift
        | BinOperator::AssignRShift => assign_check(AssignKind::Int, lhs, rhs),
        BinOperator::AssignBitwiseAnd
        | BinOperator::AssignBitwiseOr
        | BinOperator::AssignXor => assign_check(AssignKind::Bitwise, lhs, rhs),
    }
}

/// Checks a binary operation whose operands have the given types; it is
/// refused with `CannotDo2` when the operator does not apply to them.
pub fn check_infix(lhs_type: Type, op: BinOperator, rhs_type: Type) -> (r: Result<(), Error>)
    ensures
        spec_can_be_used(lhs_type@, rhs_type@, op) ==> r is Ok,
        !spec_can_be_used(lhs_type@, rhs_type@, op) ==> (r matches Err(Error::CannotDo2(l, o, t))
            && l@ == lhs_type@ && o == op && t@ == rhs_type@),
{
    if !can_be_used(&lhs_type, &rhs_type, op) {
        return Err(Error::CannotDo2(lhs_type, op, rhs_type));
    }
    Ok(())
}

/// The type of the result of `lhs op rhs`, for operands that the operator
/// accepts.
pub open spec fn spec_operation_type(lhs: TypeView, rhs: TypeView, op: BinOperator) -> TypeView {
    match op {
        BinOperator::Add => lhs,
        BinOperator::Equal
        | BinOperator::NotEqual
        | BinOperator::And
        | BinOperator::Or
        | BinOperator::Greater
        | BinOperator::GreaterOrEqual
        | BinOperator::Lower
        | BinOperator::LowerOrEqual => TypeView::Bool,
        BinOperator::Subtract | BinOperator::Multiply | BinOperator::Divide | BinOperator::Pow => {
            spec_return_type(lhs, rhs)
        },
        BinOperator::Filter | BinOperator::BitwiseAnd | BinOperator::BitwiseOr | BinOperator::Xor => {
            lhs
        },
        BinOperator::MapOp => TypeView::Array(Box::new(result_of_call(rhs)->0)),
        BinOperator::At => index_result(lhs)->0,
        BinOperator::FunctionCall => result_of_call(lhs)->0,
        BinOperator::Assign => rhs,
        BinOperator::LShift | BinOperator::RShift | BinOperator::Modulo => TypeView::Int,
        _ => *lhs->Mut_0,
    }
}

/// The operand types on which `operation_type` is defined.
pub open spec fn operation_type_defined(lhs: TypeView, rhs: TypeView, op: BinOperator) -> bool {
    match op {
        BinOperator::MapOp => result_of_call(rhs) is Some,
        BinOperator::At => index_result(lhs) is Some,
        BinOperator::FunctionCall => result_of_call(lhs) is Some,
        BinOperator::AssignAdd
        | BinOperator::AssignSubtract
        | BinOperator::AssignMultiply
        | BinOperator::AssignDivide
        | BinOperator::AssignModulo
        | BinOperator::AssignLShift
        | BinOperator::AssignRShift
        | BinOperator::AssignBitwiseAnd
        | BinOperator::AssignBitwiseOr
        | BinOperator::AssignXor
        | BinOperator::AssignPow => lhs is Mut,
        _ => true,
    }
}

/// The type of the result of `lhs op rhs`.
pub fn operation_type(lhs: &Type, rhs: &Type, op: BinOperator) -> (r: Type)
    requires
        operation_type_defined(lhs@, rhs@, op),
    ensures
        r@ == spec_operation_type(lhs@, rhs@, op),
{
    match op {
        BinOperator::Add => add::return_type(lhs, rhs),
        BinOperator::Equal
        | BinOperator::NotEqual
        | BinOperator::And
        | BinOperator::Or
        | BinOperator::Greater
        | BinOperator::GreaterOrEqual
        | BinOperator::Lower
        | BinOperator::LowerOrEqual => Type::Bool,
        BinOperator::Subtract | BinOperator::Multiply | BinOperator::Divide | BinOperator::Pow => {
            return_type(lhs, rhs)
        },
        BinOperator::Filter | BinOperator::BitwiseAnd | BinOperator::BitwiseOr | BinOperator::Xor => {
            lhs.clone()
        },
        BinOperator::MapOp => Type::array(rhs.return_type().unwrap()),
        BinOperator::At => lhs.index_result().unwrap(),
        BinOperator::FunctionCall => lhs.return_type().unwrap(),
        BinOperator::Assign => rhs.clone(),
        BinOperator::LShift | BinOperator::RShift | BinOperator::Modulo => Type::Int,
        _ => match lhs {
            Type::Mut(t) => t.duplicate(),
            _ => Type::Void,
        },
    }
}

} // verus!
