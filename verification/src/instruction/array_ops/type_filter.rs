use crate::bin_operator::BinOperator;
use crate::errors::error::Error;
use crate::variable::value::{lemma_array_type_matches, lemma_values, type_of, values, Value, Variable};
use crate::variable::var_type::{type_matches, Type, TypeView};
use vstd::prelude::*;

verus! {

/// The postfix `?type` operator: keeps the elements of an array that have
/// the given type.
pub struct TypeFilter;

/// The elements of `xs` whose type matches `t`.
pub open spec fn of_type(xs: Seq<Value>, t: TypeView) -> Seq<Value>
    decreases xs.len(),
{
    if xs.len() == 0 {
        Seq::empty()
    } else {
        let init = of_type(xs.subrange(0, xs.len() - 1), t);
        if type_matches(type_of(xs[xs.len() - 1]), t) {
            init.push(xs[xs.len() - 1])
        } else {
            init
        }
    }
}

/// Every value that `?t` keeps has a type that matches `t`.
proof fn lemma_of_type_matches(xs: Seq<Value>, t: TypeView)
    ensures
        forall|i: int|
            0 <= i < of_type(xs, t).len() ==> type_matches(type_of(#[trigger] of_type(xs, t)[i]), t),
    decreases xs.len(),
{
    if xs.len() > 0 {
        let d = xs.subrange(0, xs.len() - 1);
        lemma_of_type_matches(d, t);
        let init = of_type(d, t);
        assert forall|i: int| 0 <= i < of_type(xs, t).len() implies type_matches(
            type_of(#[trigger] of_type(xs, t)[i]),
            t,
        ) by {
            if i < init.len() {
                assert(of_type(xs, t)[i] == init[i]);
            }
        }
    }
}

/// What `array ?t` computes has the type `[t]` that the type check gives it.
pub proof fn lemma_type_filter_result_type(xs: Seq<Value>, t: TypeView)
    ensures
        type_matches(type_of(Value::Array(of_type(xs, t))), TypeView::Array(Box::new(t))),
{
    lemma_of_type_matches(xs, t);
    lemma_array_type_matches(of_type(xs, t), t);
}

impl TypeFilter {
    /// Checks `array ?type`: the operand must be an array.
    pub fn check(array_type: Type, var_type: Type) -> (r: Result<(), Error>)
        ensures
            array_type@ is Array ==> r is Ok,
            !(array_type@ is Array) ==> (r matches Err(Error::CannotDo2(a, op, t)) && a@
                == array_type@ && op == BinOperator::Filter && t@ == var_type@),
    {
        match array_type {
            Type::Array(_) => Ok(()),
            array_type => Err(Error::CannotDo2(array_type, BinOperator::Filter, var_type)),
        }
    }

    /// The elements of `array` whose type matches `var_type`, in order.
    pub fn exec(array: &Vec<Variable>, var_type: &Type) -> (r: Vec<Variable>)
        ensures
            values(r@) == of_type(values(array@), var_type@),
    {
        proof {
            lemma_values(array@);
            assert(values(array@).take(0) =~= Seq::<Value>::empty());
        }
        let mut out: Vec<Variable> = Vec::new();
        proof {
            lemma_values(out@);
        }
        let mut i: usize = 0;
        while i < array.len()
            invariant
                0 <= i <= array.len(),
                values(array@).len() == array.len(),
                forall|j: int| 0 <= j < array.len() ==> #[trigger] values(array@)[j] == array@[j]@,
                values(out@) == of_type(values(array@).take(i as int), var_type@),
            decreases array.len() - i,
        {
            let ghost before = out@;
            proof {
                assert(values(array@).take(i + 1).subrange(0, i as int) =~= values(array@).take(
                    i as int,
                ));
                assert(values(array@).take(i + 1)[i as int] == array@[i as int]@);
            }
            if array[i].as_type().matches(var_type) {
                out.push(array[i].clone());
                proof {
                    lemma_values(before);
                    lemma_values(out@);
                    assert(values(out@) =~= values(before).push(array@[i as int]@));
                }
            }
            i += 1;
        }
        proof {
            assert(values(array@).take(array.len() as int) =~= values(array@));
        }
        out
    }

    /// The type of `array ?var_type`: `[var_type]`.
    pub fn return_type(var_type: &Type) -> (r: Type)
        ensures
            r@ == TypeView::Array(Box::new(var_type@)),
    {
        Type::array(var_type.clone())
    }
}


/// `?t` keeps an element exactly when its type matches `t`: a single element
/// is kept or dropped on its own type, and filtering a concatenation filters
/// each part, in order.
pub proof fn lemma_of_type_laws(x: Value, xs1: Seq<Value>, xs2: Seq<Value>, t: TypeView)
    ensures
        of_type(seq![x], t) == (if type_matches(type_of(x), t) {
            seq![x]
        } else {
            Seq::<Value>::empty()
        }),
        of_type(xs1 + xs2, t) == of_type(xs1, t) + of_type(xs2, t),
{
    let one = seq![x];
    assert(one.len() == 1 && one[0] == x);
    assert(one.subrange(0, 0) =~= Seq::<Value>::empty());
    assert(of_type(Seq::<Value>::empty(), t) == Seq::<Value>::empty());
    assert(Seq::<Value>::empty().push(x) =~= one);
    lemma_of_type_concat(xs1, xs2, t);
}

proof fn lemma_of_type_concat(xs1: Seq<Value>, xs2: Seq<Value>, t: TypeView)
    ensures
        of_type(xs1 + xs2, t) == of_type(xs1, t) + of_type(xs2, t),
    decreases xs2.len(),
{
    if xs2.len() == 0 {
        assert(xs1 + xs2 =~= xs1);
        assert(of_type(xs1, t) + Seq::<Value>::empty() =~= of_type(xs1, t));
    } else {
        let n = xs2.len() - 1;
        let d2 = xs2.subrange(0, n);
        lemma_of_type_concat(xs1, d2, t);
        let xs = xs1 + xs2;
        assert(xs.subrange(0, xs.len() - 1) =~= xs1 + d2);
        assert(xs[xs.len() - 1] == xs2[n]);
        assert((of_type(xs1, t) + of_type(d2, t)).push(xs2[n]) =~= of_type(xs1, t) + of_type(
            d2,
            t,
        ).push(xs2[n]));
    }
}

} // verus!
