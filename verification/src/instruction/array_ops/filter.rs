use crate::errors::exec_error::ExecError;
use crate::instruction::array_ops::call::{args1, args2, call_with, returned};
use crate::variable::value::{
    lemma_array_type_matches, lemma_union_of_types_upper_bound, lemma_values, type_of, union_of_types,
    values, Value, Variable,
};
use crate::variable::var_type::{lemma_views, type_matches, Type, TypeView};
use vstd::prelude::*;

verus! {

/// The `?` operator: keeps the elements of an array for which a function
/// returns a value other than `0`.
pub struct Filter;

/// `lhs ? rhs` is well typed.
pub open spec fn filter_can_be_used(lhs: TypeView, rhs: TypeView) -> bool {
    match rhs {
        TypeView::Function(params, ret) => if lhs == TypeView::Array(Box::new(TypeView::Never)) {
            params.len() == 1 && *ret == TypeView::Int
        } else {
            match lhs {
                TypeView::Array(element) => *ret == TypeView::Int && ((params.len() == 1
                    && type_matches(*element, params[0])) || (params.len() == 2 && type_matches(
                    TypeView::Int,
                    params[0],
                ) && type_matches(*element, params[1]))),
                _ => false,
            }
        },
        _ => false,
    }
}

/// Every value that a filter keeps is one of the filtered values.
proof fn lemma_kept_from(xs: Seq<Value>, rs: Seq<Value>)
    requires
        rs.len() >= xs.len(),
    ensures
        forall|i: int|
            0 <= i < kept(xs, rs).len() ==> exists|j: int|
                0 <= j < xs.len() && #[trigger] kept(xs, rs)[i] == xs[j],
    decreases xs.len(),
{
    if xs.len() > 0 {
        let d = xs.subrange(0, xs.len() - 1);
        let e = rs.subrange(0, xs.len() - 1);
        lemma_kept_from(d, e);
        let init = kept(d, e);
        assert forall|i: int| 0 <= i < kept(xs, rs).len() implies exists|j: int|
            0 <= j < xs.len() && #[trigger] kept(xs, rs)[i] == xs[j] by {
            if i < init.len() {
                assert(kept(xs, rs)[i] == init[i]);
                let j = choose|j: int| 0 <= j < d.len() && init[i] == d[j];
                assert(xs[j] == d[j]);
            } else {
                assert(kept(xs, rs)[i] == xs[xs.len() - 1]);
            }
        }
    }
}

/// What `array ? function` computes has a type that matches the type of the
/// array, the type that the check gives it.
pub proof fn lemma_filter_result_type(xs: Seq<Value>, rs: Seq<Value>)
    requires
        rs.len() == xs.len(),
    ensures
        type_matches(type_of(Value::Array(kept(xs, rs))), type_of(Value::Array(xs))),
{
    lemma_kept_from(xs, rs);
    let ks = kept(xs, rs);
    assert forall|i: int| 0 <= i < ks.len() implies type_matches(
        type_of(#[trigger] ks[i]),
        union_of_types(xs),
    ) by {
        let j = choose|j: int| 0 <= j < xs.len() && ks[i] == xs[j];
        lemma_union_of_types_upper_bound(xs, j);
    }
    lemma_array_type_matches(ks, union_of_types(xs));
}

/// Filtering drops nothing when no verdict is the integer `0`, whatever the
/// other verdicts are (negative ones included).
pub proof fn lemma_kept_all(xs: Seq<Value>, rs: Seq<Value>)
    requires
        rs.len() >= xs.len(),
        forall|i: int| 0 <= i < xs.len() ==> rs[i] != Value::Int(0),
    ensures
        kept(xs, rs) == xs,
    decreases xs.len(),
{
    if xs.len() > 0 {
        let d = xs.subrange(0, xs.len() - 1);
        let e = rs.subrange(0, xs.len() - 1);
        lemma_kept_all(d, e);
        assert(d.push(xs[xs.len() - 1]) =~= xs);
    }
}

/// Filtering keeps nothing when every verdict is the integer `0`.
pub proof fn lemma_kept_none(xs: Seq<Value>, rs: Seq<Value>)
    requires
        rs.len() >= xs.len(),
        forall|i: int| 0 <= i < xs.len() ==> rs[i] == Value::Int(0),
    ensures
        kept(xs, rs) == Seq::<Value>::empty(),
    decreases xs.len(),
{
    if xs.len() > 0 {
        lemma_kept_none(xs.subrange(0, xs.len() - 1), rs.subrange(0, xs.len() - 1));
    }
}

/// Filtering two arrays one after the other, each with its own verdicts,
/// gives what filtering their concatenation gives: each element is kept or
/// dropped on its own verdict, and the kept ones stay in order.
pub proof fn lemma_kept_concat(xs1: Seq<Value>, rs1: Seq<Value>, xs2: Seq<Value>, rs2: Seq<Value>)
    requires
        xs1.len() == rs1.len(),
        xs2.len() == rs2.len(),
    ensures
        kept(xs1 + xs2, rs1 + rs2) == kept(xs1, rs1) + kept(xs2, rs2),
    decreases xs2.len(),
{
    if xs2.len() == 0 {
        assert(xs1 + xs2 =~= xs1);
        assert(rs1 + rs2 =~= rs1);
        assert(kept(xs1, rs1) + Seq::<Value>::empty() =~= kept(xs1, rs1));
    } else {
        let n = xs2.len() - 1;
        let d2 = xs2.subrange(0, n);
        let e2 = rs2.subrange(0, n);
        lemma_kept_concat(xs1, rs1, d2, e2);
        let xs = xs1 + xs2;
        let rs = rs1 + rs2;
        assert(xs.subrange(0, xs.len() - 1) =~= xs1 + d2);
        assert(rs.subrange(0, xs.len() - 1) =~= rs1 + e2);
        assert(xs[xs.len() - 1] == xs2[n]);
        assert(rs[xs.len() - 1] == rs2[n]);
        assert(rs2.subrange(0, n) == e2);
        if rs2[n] != Value::Int(0) {
            assert(kept(xs1, rs1) + kept(d2, e2).push(xs2[n]) =~= (kept(xs1, rs1) + kept(
                d2,
                e2,
            )).push(xs2[n]));
        }
    }
}

impl Filter {
    /// Whether `lhs ? rhs` is well typed: `rhs` must be a function returning
    /// `int` that takes an element of the array `lhs`, optionally preceded by
    /// its `int` index. For the empty array type `[never]`, any function of
    /// one parameter returning `int` is accepted.
    pub fn can_be_used(lhs: &Type, rhs: &Type) -> (r: bool)
        ensures
            r == filter_can_be_used(lhs@, rhs@),
    {
        let function_type = match rhs {
            Type::Function(f) => f,
            _ => return false,
        };
        proof {
            lemma_views(function_type.params@);
        }
        let params = &function_type.params;
        let returns_int = function_type.return_type.equals(&Type::Int);
        let empty = Type::array(Type::Never);
        if lhs.equals(&empty) {
            return params.len() == 1 && returns_int;
        }
        let element_type = match lhs {
            Type::Array(e) => e,
            _ => return false,
        };
        returns_int && ((params.len() == 1 && element_type.matches(&params[0])) || (params.len()
            == 2 && Type::Int.matches(&params[0]) && element_type.matches(&params[1])))
    }
}


/// The arguments of the filtering function for the element `x` at `index`:
/// the element alone for a function of one parameter, else the index and the
/// element.
pub open spec fn element_args(arity: usize, index: int, x: Value) -> Seq<Value> {
    if arity == 1 {
        seq![x]
    } else {
        seq![Value::Int(index as i64), x]
    }
}

/// The elements of `xs` whose verdict in `rs` is not the integer `0`.
pub open spec fn kept(xs: Seq<Value>, rs: Seq<Value>) -> Seq<Value>
    decreases xs.len(),
{
    if xs.len() == 0 {
        Seq::empty()
    } else {
        let init = kept(xs.subrange(0, xs.len() - 1), rs.subrange(0, xs.len() - 1));
        if rs[xs.len() - 1] != Value::Int(0) {
            init.push(xs[xs.len() - 1])
        } else {
            init
        }
    }
}

impl Filter {
    /// `array ? function`, where `call` calls the function (of `arity`
    /// parameters) with the given arguments: the elements for which the
    /// function does not return `0`, in order. The first error that a call
    /// returns stops the filtering and is returned.
    pub fn exec<F: Fn(Vec<Variable>) -> Result<Variable, ExecError>>(
        array: &Vec<Variable>,
        arity: usize,
        call: &F,
    ) -> (r: Result<Vec<Variable>, ExecError>)
        requires
            array.len() <= i64::MAX,
            forall|a: Vec<Variable>| call.requires((a,)),
        ensures
            match r {
                Ok(out) => exists|rs: Seq<Value>|
                    rs.len() == array.len() && (forall|i: int|
                        0 <= i < array.len() ==> returned(
                            *call,
                            element_args(arity, i, #[trigger] values(array@)[i]),
                            Ok(rs[i]),
                        )) && values(out@) == kept(values(array@), rs),
                Err(e) => exists|n: int, rs: Seq<Value>|
                    0 <= n < array.len() && rs.len() == n && (forall|i: int|
                        0 <= i < n ==> returned(
                            *call,
                            element_args(arity, i, #[trigger] values(array@)[i]),
                            Ok(rs[i]),
                        )) && returned(*call, element_args(arity, n, values(array@)[n]), Err(e)),
            },
    {
        proof {
            lemma_values(array@);
        }
        let ghost xs = values(array@);
        let ghost mut rs: Seq<Value> = Seq::empty();
        let mut out: Vec<Variable> = Vec::new();
        let mut i: usize = 0;
        proof {
            lemma_values(out@);
            assert(xs.take(0) =~= Seq::<Value>::empty());
            assert(values(out@) =~= Seq::<Value>::empty());
        }
        while i < array.len()
            invariant
                0 <= i <= array.len(),
                array.len() <= i64::MAX,
                forall|a: Vec<Variable>| call.requires((a,)),
                xs == values(array@),
                xs.len() == array.len(),
                forall|j: int| 0 <= j < array.len() ==> #[trigger] xs[j] == array@[j]@,
                rs.len() == i,
                forall|j: int|
                    0 <= j < i ==> returned(*call, element_args(arity, j, #[trigger] xs[j]), Ok(rs[j])),
                values(out@) == kept(xs.take(i as int), rs),
            decreases array.len() - i,
        {
            let element = array[i].clone();
            let args = if arity == 1 {
                args1(array[i].clone())
            } else {
                args2(Variable::Int(i as i64), array[i].clone())
            };
            assert(values(args@) == element_args(arity, i as int, xs[i as int]));
            let result = call_with(call, args);
            match result {
                Ok(v) => {
                    let ghost before = out@;
                    let keep = match v {
                        Variable::Int(0) => false,
                        _ => true,
                    };
                    assert(keep == (v@ != Value::Int(0)));
                    if keep {
                        out.push(element);
                    }
                    proof {
                        let rs2 = rs.push(v@);
                        assert(xs.take(i + 1).subrange(0, i as int) =~= xs.take(i as int));
                        assert(rs2.subrange(0, i as int) =~= rs);
                        assert(xs.take(i + 1)[i as int] == xs[i as int]);
                        lemma_values(before);
                        lemma_values(out@);
                        if keep {
                            assert(values(out@) =~= values(before).push(xs[i as int]));
                        }
                        rs = rs2;
                    }
                },
                Err(e) => {
                    return Err(e);
                },
            }
            i += 1;
        }
        proof {
            assert(xs.take(array.len() as int) =~= xs);
        }
        Ok(out)
    }
}

} // verus!
