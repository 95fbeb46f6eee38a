use crate::instruction::bin::bitwise_can_be_used;
use crate::variable::value::{
    lemma_array_type_matches, lemma_int_array, lemma_value_sizes, lemma_values, type_of,
    union_of_types, value_size, value_sizes, values, Value, Variable,
};
use crate::variable::var_type::{type_matches, Type, TypeView};
use vstd::prelude::*;

verus! {

/// The `|` operator on integers and arrays of integers.
pub struct BinOr;

/// `v` is an array without elements.
pub open spec fn is_empty_array(v: Value) -> bool {
    v matches Value::Array(xs) && xs.len() == 0
}

/// The value of `lhs | rhs`: two integers give their bitwise or; an empty
/// array gives itself (the left operand first); otherwise the operator is
/// applied to each element of the array operand (the right operand first)
/// with the other operand.
pub open spec fn or_value(lhs: Value, rhs: Value) -> Value
    decreases value_size(lhs) + value_size(rhs), 1nat,
{
    match (lhs, rhs) {
        (Value::Int(a), Value::Int(b)) => Value::Int(a | b),
        _ => if is_empty_array(lhs) {
            lhs
        } else if is_empty_array(rhs) {
            rhs
        } else {
            match rhs {
                Value::Array(ys) => Value::Array(or_each(ys, lhs)),
                _ => match lhs {
                    Value::Array(xs) => Value::Array(or_each(xs, rhs)),
                    _ => lhs,
                },
            }
        },
    }
}

/// `x | v` for each element `x` of `xs`, in order.
pub open spec fn or_each(xs: Seq<Value>, v: Value) -> Seq<Value>
    decreases value_sizes(xs) + value_size(v), 0nat,
{
    if xs.len() == 0 {
        Seq::empty()
    } else {
        or_each(xs.subrange(0, xs.len() - 1), v).push(or_value(xs[xs.len() - 1], v))
    }
}

/// `lhs | rhs` has a value: the recursion of [`or_value`] reaches two integers
/// or an empty array everywhere.
pub open spec fn or_defined(lhs: Value, rhs: Value) -> bool
    decreases value_size(lhs) + value_size(rhs), 1nat,
{
    match (lhs, rhs) {
        (Value::Int(_), Value::Int(_)) => true,
        _ => if is_empty_array(lhs) || is_empty_array(rhs) {
            true
        } else {
            match rhs {
                Value::Array(ys) => or_each_defined(ys, lhs),
                _ => match lhs {
                    Value::Array(xs) => or_each_defined(xs, rhs),
                    _ => false,
                },
            }
        },
    }
}

pub open spec fn or_each_defined(xs: Seq<Value>, v: Value) -> bool
    decreases value_sizes(xs) + value_size(v), 0nat,
{
    if xs.len() == 0 {
        true
    } else {
        or_each_defined(xs.subrange(0, xs.len() - 1), v) && or_defined(xs[xs.len() - 1], v)
    }
}

proof fn lemma_or_each(xs: Seq<Value>, v: Value)
    ensures
        or_each(xs, v).len() == xs.len(),
        forall|i: int| 0 <= i < xs.len() ==> #[trigger] or_each(xs, v)[i] == or_value(xs[i], v),
        or_each_defined(xs, v) <==> forall|i: int| 0 <= i < xs.len() ==> or_defined(#[trigger] xs[i], v),
    decreases xs.len(),
{
    if xs.len() > 0 {
        let d = xs.subrange(0, xs.len() - 1);
        lemma_or_each(d, v);
        assert forall|i: int| 0 <= i < xs.len() - 1 implies #[trigger] xs[i] == d[i] by {}
    }
}

/// The type of `lhs | rhs`: the array operand's type, the left one first;
/// otherwise the left operand's type.
pub open spec fn or_type(lhs: TypeView, rhs: TypeView) -> TypeView {
    if lhs is Array {
        lhs
    } else if rhs is Array {
        rhs
    } else {
        lhs
    }
}

/// `x | v` of the integers `xs` and the integer `v` is defined and gives
/// integers.
proof fn lemma_or_ints(xs: Seq<Value>, v: Value)
    requires
        v is Int,
        forall|i: int| 0 <= i < xs.len() ==> #[trigger] xs[i] is Int,
    ensures
        or_each_defined(xs, v),
        forall|i: int| 0 <= i < xs.len() ==> type_matches(type_of(#[trigger] or_each(xs, v)[i]), TypeView::Int),
{
    lemma_or_each(xs, v);
    assert forall|i: int| 0 <= i < xs.len() implies type_matches(
        type_of(#[trigger] or_each(xs, v)[i]),
        TypeView::Int,
    ) by {
        assert(or_each(xs, v)[i] == or_value(xs[i], v));
    }
}

/// `|` on operands that the type check accepts has a value, and its type
/// matches the type that the check gives the operation.
pub proof fn lemma_bin_or_well_typed(lhs: Value, rhs: Value)
    requires
        bitwise_can_be_used(type_of(lhs), type_of(rhs)),
    ensures
        or_defined(lhs, rhs),
        type_matches(type_of(or_value(lhs, rhs)), or_type(type_of(lhs), type_of(rhs))),
{
    match (lhs, rhs) {
        (Value::Array(xs), _) => {
            lemma_int_array(xs);
            lemma_or_ints(xs, rhs);
            lemma_or_each(xs, rhs);
            lemma_array_type_matches(or_each(xs, rhs), TypeView::Int);
        },
        (_, Value::Array(ys)) => {
            lemma_int_array(ys);
            lemma_or_ints(ys, lhs);
            lemma_or_each(ys, lhs);
            lemma_array_type_matches(or_each(ys, lhs), TypeView::Int);
        },
        _ => {},
    }
}

fn is_empty(v: &Variable) -> (r: bool)
    ensures
        r == is_empty_array(v@),
{
    match v {
        Variable::Array(xs) => {
            proof {
                lemma_values(xs@);
            }
            xs.len() == 0
        },
        _ => false,
    }
}

impl BinOr {
    /// `element | value` for each element of `array`, in order.
    fn or_elements(array: &Vec<Variable>, value: &Variable) -> (r: Vec<Variable>)
        requires
            or_each_defined(values(array@), value@),
        ensures
            values(r@) == or_each(values(array@), value@),
        decreases value_sizes(values(array@)) + value_size(value@), 0nat,
    {
        proof {
            lemma_values(array@);
            lemma_value_sizes(values(array@));
            lemma_or_each(values(array@), value@);
        }
        let mut r: Vec<Variable> = Vec::new();
        let mut i: usize = 0;
        while i < array.len()
            invariant
                0 <= i <= array.len(),
                r.len() == i,
                values(array@).len() == array.len(),
                forall|j: int| 0 <= j < array.len() ==> #[trigger] values(array@)[j] == array@[j]@,
                forall|j: int|
                    0 <= j < array.len() ==> value_size(#[trigger] values(array@)[j]) < value_sizes(
                        values(array@),
                    ),
                forall|j: int| 0 <= j < array.len() ==> or_defined(#[trigger] values(array@)[j], value@),
                forall|j: int| 0 <= j < i ==> #[trigger] r@[j]@ == or_value(values(array@)[j], value@),
            decreases array.len() - i,
        {
            assert(values(array@)[i as int] == array@[i as int]@);
            let x = Self::bin_or(&array[i], value);
            r.push(x);
            i += 1;
        }
        proof {
            lemma_values(r@);
            assert(values(r@) =~= or_each(values(array@), value@));
        }
        r
    }

    /// `lhs | rhs`.
    pub fn bin_or(lhs: &Variable, rhs: &Variable) -> (r: Variable)
        requires
            or_defined(lhs@, rhs@),
        ensures
            r@ == or_value(lhs@, rhs@),
        decreases value_size(lhs@) + value_size(rhs@), 1nat,
    {
        if let (Variable::Int(a), Variable::Int(b)) = (lhs, rhs) {
            return Variable::Int(*a | *b);
        }
        if is_empty(lhs) {
            return lhs.clone();
        }
        if is_empty(rhs) {
            return rhs.clone();
        }
        match rhs {
            Variable::Array(ys) => Variable::Array(Self::or_elements(ys, lhs)),
            _ => match lhs {
                Variable::Array(xs) => Variable::Array(Self::or_elements(xs, rhs)),
                _ => lhs.clone(),
            },
        }
    }

    /// Whether every element of `array`, with `value`, has a value under `|`.
    fn elements_defined(array: &Vec<Variable>, value: &Variable) -> (r: bool)
        ensures
            r == or_each_defined(values(array@), value@),
        decreases value_sizes(values(array@)) + value_size(value@), 0nat,
    {
        proof {
            lemma_values(array@);
            lemma_value_sizes(values(array@));
            lemma_or_each(values(array@), value@);
        }
        let mut i: usize = 0;
        while i < array.len()
            invariant
                0 <= i <= array.len(),
                values(array@).len() == array.len(),
                forall|j: int| 0 <= j < array.len() ==> #[trigger] values(array@)[j] == array@[j]@,
                forall|j: int|
                    0 <= j < array.len() ==> value_size(#[trigger] values(array@)[j]) < value_sizes(
                        values(array@),
                    ),
                forall|j: int| 0 <= j < i ==> or_defined(#[trigger] values(array@)[j], value@),
                or_each_defined(values(array@), value@) <==> forall|j: int|
                    0 <= j < array.len() ==> or_defined(#[trigger] values(array@)[j], value@),
            decreases array.len() - i,
        {
            assert(values(array@)[i as int] == array@[i as int]@);
            if !Self::defined(&array[i], value) {
                return false;
            }
            i += 1;
        }
        true
    }

    /// Whether `lhs | rhs` has a value (see `or_defined`).
    pub fn defined(lhs: &Variable, rhs: &Variable) -> (r: bool)
        ensures
            r == or_defined(lhs@, rhs@),
        decreases value_size(lhs@) + value_size(rhs@), 1nat,
    {
        if let (Variable::Int(_), Variable::Int(_)) = (lhs, rhs) {
            return true;
        }
        if is_empty(lhs) || is_empty(rhs) {
            return true;
        }
        match rhs {
            Variable::Array(ys) => Self::elements_defined(ys, lhs),
            _ => match lhs {
                Variable::Array(xs) => Self::elements_defined(xs, rhs),
                _ => false,
            },
        }
    }

    /// The type of `lhs | rhs`.
    pub fn return_type(lhs: &Type, rhs: &Type) -> (r: Type)
        ensures
            r@ == or_type(lhs@, rhs@),
    {
        match lhs {
            Type::Array(_) => lhs.clone(),
            _ => match rhs {
                Type::Array(_) => rhs.clone(),
                _ => lhs.clone(),
            },
        }
    }
}


/// `|` on two integers is their bitwise or: commutative, with `0` neutral and
/// `a | a == a`; on a non-empty array and an integer it applies to each
/// element, in place.
pub proof fn lemma_or_laws(a: i64, b: i64, xs: Seq<Value>)
    ensures
        or_value(Value::Int(a), Value::Int(b)) == or_value(Value::Int(b), Value::Int(a)),
        or_value(Value::Int(a), Value::Int(0)) == Value::Int(a),
        or_value(Value::Int(a), Value::Int(a)) == Value::Int(a),
        xs.len() > 0 ==> (or_value(Value::Array(xs), Value::Int(b)) matches Value::Array(ys)
            && ys.len() == xs.len() && forall|i: int|
            0 <= i < xs.len() ==> #[trigger] ys[i] == or_value(xs[i], Value::Int(b))),
{
    assert(a | b == b | a) by (bit_vector);
    assert(a | 0 == a) by (bit_vector);
    assert(a | a == a) by (bit_vector);
    lemma_or_each(xs, Value::Int(b));
}

} // verus!
