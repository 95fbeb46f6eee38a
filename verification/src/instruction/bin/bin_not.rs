use crate::variable::value::{
    lemma_array_type_matches, lemma_int_array, lemma_value_sizes, lemma_values, type_of, value_size,
    value_sizes, values, Value, Variable,
};
use crate::variable::var_type::{type_matches, Type, TypeView};
use vstd::prelude::*;

verus! {

/// The prefix `~` operator: bitwise not of an integer, or of each integer of
/// an array.
pub struct BinNot;

/// The value of `~v`.
pub open spec fn not_value(v: Value) -> Value
    decreases v,
{
    match v {
        Value::Int(a) => Value::Int(!a),
        Value::Array(xs) => Value::Array(not_each(xs)),
        _ => v,
    }
}

pub open spec fn not_each(xs: Seq<Value>) -> Seq<Value>
    decreases xs,
{
    if xs.len() == 0 {
        Seq::empty()
    } else {
        not_each(xs.subrange(0, xs.len() - 1)).push(not_value(xs[xs.len() - 1]))
    }
}

/// `~v` has a value: `v` is an integer or an array whose elements have one.
pub open spec fn not_defined(v: Value) -> bool
    decreases v,
{
    match v {
        Value::Int(_) => true,
        Value::Array(xs) => not_each_defined(xs),
        _ => false,
    }
}

pub open spec fn not_each_defined(xs: Seq<Value>) -> bool
    decreases xs,
{
    if xs.len() == 0 {
        true
    } else {
        not_each_defined(xs.subrange(0, xs.len() - 1)) && not_defined(xs[xs.len() - 1])
    }
}

proof fn lemma_not_each(xs: Seq<Value>)
    ensures
        not_each(xs).len() == xs.len(),
        forall|i: int| 0 <= i < xs.len() ==> #[trigger] not_each(xs)[i] == not_value(xs[i]),
        not_each_defined(xs) <==> forall|i: int| 0 <= i < xs.len() ==> not_defined(#[trigger] xs[i]),
    decreases xs.len(),
{
    if xs.len() > 0 {
        let d = xs.subrange(0, xs.len() - 1);
        lemma_not_each(d);
        assert forall|i: int| 0 <= i < xs.len() - 1 implies #[trigger] xs[i] == d[i] by {}
    }
}

/// `~` applies to an `int` or an `[int]`.
pub open spec fn not_can_be_used(t: TypeView) -> bool {
    t == TypeView::Int || t == TypeView::Array(Box::new(TypeView::Int))
}

/// `~` on an operand that the type check accepts has a value, and its type
/// matches the operand's type, the type that the check gives the operation.
pub proof fn lemma_bin_not_well_typed(v: Value)
    requires
        not_can_be_used(type_of(v)),
    ensures
        not_defined(v),
        type_matches(type_of(not_value(v)), type_of(v)),
{
    if let Value::Array(xs) = v {
        lemma_int_array(xs);
        lemma_not_each(xs);
        assert forall|i: int| 0 <= i < xs.len() implies type_matches(
            type_of(#[trigger] not_each(xs)[i]),
            TypeView::Int,
        ) by {
            assert(not_each(xs)[i] == not_value(xs[i]));
        }
        lemma_array_type_matches(not_each(xs), TypeView::Int);
    }
}

impl BinNot {
    /// Whether `~` applies to an operand of type `t`.
    pub fn can_be_used(t: &Type) -> (r: bool)
        ensures
            r == not_can_be_used(t@),
    {
        match t {
            Type::Int => true,
            Type::Array(e) => {
                proof {
                    assert(Type::Int@ == TypeView::Int);
                }
                e.equals(&Type::Int)
            },
            _ => false,
        }
    }

    /// `~operand`.
    pub fn bin_not(operand: &Variable) -> (r: Variable)
        requires
            not_defined(operand@),
        ensures
            r@ == not_value(operand@),
        decreases value_size(operand@),
    {
        match operand {
            Variable::Int(a) => {
                let x: i64 = *a;
                // the bitwise not of a two's complement integer
                let y: i64 = -1 - x;
                assert(y == !x) by (bit_vector)
                    requires
                        y == -1 - x,
                ;
                Variable::Int(y)
            },
            Variable::Array(xs) => {
                proof {
                    lemma_values(xs@);
                    lemma_value_sizes(values(xs@));
                    lemma_not_each(values(xs@));
                }
                let mut r: Vec<Variable> = Vec::new();
                let mut i: usize = 0;
                while i < xs.len()
                    invariant
                        0 <= i <= xs.len(),
                        r.len() == i,
                        operand@ == Value::Array(values(xs@)),
                        values(xs@).len() == xs.len(),
                        forall|j: int| 0 <= j < xs.len() ==> #[trigger] values(xs@)[j] == xs@[j]@,
                        forall|j: int|
                            0 <= j < xs.len() ==> value_size(#[trigger] values(xs@)[j])
                                < value_sizes(values(xs@)),
                        forall|j: int| 0 <= j < xs.len() ==> not_defined(#[trigger] values(xs@)[j]),
                        forall|j: int| 0 <= j < i ==> #[trigger] r@[j]@ == not_value(values(xs@)[j]),
                    decreases xs.len() - i,
                {
                    assert(values(xs@)[i as int] == xs@[i as int]@);
                    let x = Self::bin_not(&xs[i]);
                    r.push(x);
                    i += 1;
                }
                proof {
                    lemma_values(r@);
                    assert(values(r@) =~= not_each(values(xs@)));
                }
                Variable::Array(r)
            },
            _ => operand.clone(),
        }
    }

    /// The type of `~operand`: the operand's type.
    pub fn return_type(t: &Type) -> (r: Type)
        ensures
            r@ == t@,
    {
        t.clone()
    }
}


/// `~` flips every bit of an integer: `~a + a` is `-1`, and applying `~`
/// twice gives the integer back.
pub proof fn lemma_not_int(a: i64)
    ensures
        not_value(Value::Int(a)) matches Value::Int(b) && b + a == -1,
        not_value(not_value(Value::Int(a))) == Value::Int(a),
{
    assert((!a) + a == -1) by (bit_vector);
    assert(!(!a) == a) by (bit_vector);
}

/// `~` on an array applies to each element, in place.
pub proof fn lemma_not_array(xs: Seq<Value>)
    ensures
        not_value(Value::Array(xs)) matches Value::Array(ys) && ys.len() == xs.len() && forall|i: int|
            0 <= i < xs.len() ==> #[trigger] ys[i] == not_value(xs[i]),
{
    lemma_not_each(xs);
}

} // verus!
