use crate::variable::var_type::{
    flatten_tuple, index_result, lemma_views, type_matches, union, vec1, views, Type, TypeView,
};
use crate::errors::exec_error::ExecError;
use crate::instruction::array_ops::call::{args1, args2, call_with, returned};
use crate::instruction::array_ops::filter::element_args;
use crate::variable::value::{lemma_values, values, Value, Variable};
use vstd::prelude::*;

verus! {

/// The `@` operator: applies a function to each element of an array, or to the
/// elements at each position of a tuple of arrays.
pub struct MapOp;

/// A function that takes `params`, or an `int` index followed by `params`,
/// and returns anything.
pub open spec fn expected_function(params: Seq<TypeView>) -> TypeView {
    union(
        TypeView::Function(params, Box::new(TypeView::Any)),
        TypeView::Function(seq![TypeView::Int] + params, Box::new(TypeView::Any)),
    )
}

/// `lhs @ rhs` is well typed.
pub open spec fn map_can_be_used(lhs: TypeView, rhs: TypeView) -> bool {
    match flatten_tuple(lhs) {
        Some(types) => map_can_be_used_zip(types, rhs),
        None => match index_result(lhs) {
            Some(element) => type_matches(rhs, expected_function(seq![element])),
            None => false,
        },
    }
}

/// `(a1, ..., an) @ rhs` is well typed, for arrays `ai` of the types `types`.
pub open spec fn map_can_be_used_zip(types: Seq<TypeView>, rhs: TypeView) -> bool {
    if forall|i: int| 0 <= i < types.len() ==> index_result(#[trigger] types[i]) is Some {
        type_matches(
            rhs,
            expected_function(Seq::new(types.len(), |i: int| index_result(types[i])->0)),
        )
    } else {
        false
    }
}

fn expected_function_type(params: Vec<Type>) -> (r: Type)
    ensures
        r@ == expected_function(views(params@)),
{
    let mut extended: Vec<Type> = Vec::new();
    extended.push(Type::Int);
    let mut i: usize = 0;
    while i < params.len()
        invariant
            0 <= i <= params.len(),
            extended.len() == i + 1,
            extended@[0]@ == TypeView::Int,
            forall|j: int| 0 <= j < i ==> #[trigger] extended@[j + 1]@ == params@[j]@,
        decreases params.len() - i,
    {
        extended.push(params[i].clone());
        i += 1;
    }
    proof {
        lemma_views(extended@);
        lemma_views(params@);
        assert forall|k: int| 1 <= k < extended.len() implies #[trigger] views(extended@)[k]
            == views(params@)[k - 1] by {
            assert(extended@[(k - 1) + 1]@ == params@[k - 1]@);
        }
        assert(views(extended@) =~= seq![TypeView::Int] + views(params@));
    }
    let first = Type::function(params, Type::Any);
    let second = Type::function(extended, Type::Any);
    first.union(second)
}

impl MapOp {
    /// Whether `lhs @ rhs` is well typed: `rhs` must be a function taking
    /// an element of `lhs` (optionally preceded by its `int` index); for a
    /// tuple of arrays, the function takes one element of each array.
    pub fn can_be_used(lhs: &Type, rhs: &Type) -> (r: bool)
        ensures
            r == map_can_be_used(lhs@, rhs@),
    {
        if let Some(types) = lhs.flatten_tuple() {
            return Self::can_be_used_zip(&types, rhs);
        }
        let element_type = match lhs.index_result() {
            Some(t) => t,
            None => return false,
        };
        let expected = expected_function_type(vec1(element_type));
        rhs.matches(&expected)
    }

    /// Whether a tuple of arrays of the types `types` can be mapped by `rhs`.
    pub fn can_be_used_zip(types: &Vec<Type>, rhs: &Type) -> (r: bool)
        ensures
            r == map_can_be_used_zip(views(types@), rhs@),
    {
        proof {
            lemma_views(types@);
        }
        let mut params: Vec<Type> = Vec::new();
        let mut i: usize = 0;
        while i < types.len()
            invariant
                0 <= i <= types.len(),
                params.len() == i,
                views(types@).len() == types.len(),
                forall|j: int| 0 <= j < types.len() ==> #[trigger] views(types@)[j] == types@[j]@,
                forall|j: int|
                    0 <= j < i ==> index_result(#[trigger] types@[j]@) == Some(params@[j]@),
            decreases types.len() - i,
        {
            match types[i].index_result() {
                Some(t) => params.push(t),
                None => {
                    assert(index_result(views(types@)[i as int]) is None);
                    return false;
                },
            }
            i += 1;
        }
        proof {
            lemma_views(params@);
            assert(views(params@) =~= Seq::new(
                views(types@).len(),
                |j: int| index_result(views(types@)[j])->0,
            ));
        }
        let expected = expected_function_type(params);
        rhs.matches(&expected)
    }
}


/// The `i`-th elements of the arrays `arrays`.
pub open spec fn column(arrays: Seq<Value>, i: int) -> Seq<Value> {
    Seq::new(arrays.len(), |k: int| arrays[k]->Array_0[i])
}

/// The arguments for position `i` of a tuple of arrays: the elements at `i`,
/// preceded by `i` unless the function takes exactly one parameter per array.
pub open spec fn zip_args(arity: usize, arrays: Seq<Value>, i: int) -> Seq<Value> {
    if arity == arrays.len() {
        column(arrays, i)
    } else {
        seq![Value::Int(i as i64)] + column(arrays, i)
    }
}

/// The length of the shortest of the arrays `arrays`.
pub open spec fn shortest(arrays: Seq<Value>) -> int
    decreases arrays.len(),
{
    if arrays.len() <= 1 {
        arrays[0]->Array_0.len() as int
    } else {
        let rest = shortest(arrays.subrange(0, arrays.len() - 1));
        let last = arrays[arrays.len() - 1]->Array_0.len() as int;
        if last < rest {
            last
        } else {
            rest
        }
    }
}

/// The outcome of calling a function once per position `0 <= i < n`, with the
/// arguments `args(i)`: either every call returned a value, and the values are
/// `out`, or the calls before some `m` returned values and call `m` returned
/// the error `e`.
pub open spec fn mapped<F: Fn(Vec<Variable>) -> Result<Variable, ExecError>>(
    call: F,
    n: int,
    args: spec_fn(int) -> Seq<Value>,
    r: Result<Seq<Value>, ExecError>,
) -> bool {
    match r {
        Ok(out) => out.len() == n && forall|i: int|
            0 <= i < n ==> returned(call, #[trigger] args(i), Ok(out[i])),
        Err(e) => exists|m: int, rs: Seq<Value>|
            #![trigger rs.len(), args(m)]
            0 <= m < n && rs.len() == m && (forall|i: int|
                0 <= i < m ==> returned(call, #[trigger] args(i), Ok(rs[i]))) && returned(
                call,
                args(m),
                Err(e),
            ),
    }
}

pub open spec fn result_values(r: Result<Vec<Variable>, ExecError>) -> Result<Seq<Value>, ExecError> {
    match r {
        Ok(v) => Ok(values(v@)),
        Err(e) => Err(e),
    }
}

/// Calls `call` once for each `0 <= i < n`, with the arguments that `make`
/// builds, and collects the results.
fn call_each<F, G>(n: usize, make: &G, args: Ghost<spec_fn(int) -> Seq<Value>>, call: &F) -> (r: Result<
    Vec<Variable>,
    ExecError,
>) where F: Fn(Vec<Variable>) -> Result<Variable, ExecError>, G: Fn(usize) -> Vec<Variable>
    requires
        forall|a: Vec<Variable>| call.requires((a,)),
        forall|i: usize| i < n ==> make.requires((i,)),
        forall|i: usize, a: Vec<Variable>|
            i < n && make.ensures((i,), a) ==> values(a@) == args@(i as int),
    ensures
        mapped(*call, n as int, args@, result_values(r)),
{
    let mut out: Vec<Variable> = Vec::new();
    let mut i: usize = 0;
    while i < n
        invariant
            0 <= i <= n,
            forall|a: Vec<Variable>| call.requires((a,)),
            forall|i: usize| i < n ==> make.requires((i,)),
            forall|i: usize, a: Vec<Variable>|
                i < n && make.ensures((i,), a) ==> values(a@) == args@(i as int),
            out.len() == i,
            forall|j: int| 0 <= j < i ==> returned(*call, #[trigger] args@(j), Ok(out@[j]@)),
        decreases n - i,
    {
        let a = make(i);
        match call_with(call, a) {
            Ok(v) => {
                out.push(v);
            },
            Err(e) => {
                proof {
                    lemma_values(out@);
                    assert(forall|j: int|
                        0 <= j < i ==> returned(*call, #[trigger] args@(j), Ok(values(out@)[j])));
                }
                return Err(e);
            },
        }
        i += 1;
    }
    proof {
        lemma_values(out@);
        assert(forall|j: int|
            0 <= j < n ==> returned(*call, #[trigger] args@(j), Ok(values(out@)[j])));
    }
    Ok(out)
}

impl MapOp {
    /// `array @ function`, where `call` calls the function (of `arity`
    /// parameters) with the given arguments: the results of the calls for
    /// each element (preceded by its index unless the function takes one
    /// parameter), in order. The first error that a call returns is returned.
    pub fn exec<F: Fn(Vec<Variable>) -> Result<Variable, ExecError>>(
        array: &Vec<Variable>,
        arity: usize,
        call: &F,
    ) -> (r: Result<Vec<Variable>, ExecError>)
        requires
            array.len() <= i64::MAX,
            forall|a: Vec<Variable>| call.requires((a,)),
        ensures
            mapped(
                *call,
                array.len() as int,
                |i: int| element_args(arity, i, values(array@)[i]),
                result_values(r),
            ),
    {
        proof {
            lemma_values(array@);
        }
        let ghost args = |i: int| element_args(arity, i, values(array@)[i]);
        let make = |i: usize| -> (a: Vec<Variable>)
            requires
                i < array.len(),
                array.len() <= i64::MAX,
            ensures
                values(a@) == element_args(arity, i as int, values(array@)[i as int]),
            {
                proof {
                    lemma_values(array@);
                }
                if arity == 1 {
                    args1(array[i].clone())
                } else {
                    args2(Variable::Int(i as i64), array[i].clone())
                }
            };
        call_each(array.len(), &make, Ghost(args), call)
    }

    /// `(a1, ..., an) @ function` for arrays `ai`, where `call` calls the
    /// function (of `arity` parameters): for each position up to the length of
    /// the shortest array, the result of the call with the elements at that
    /// position (preceded by the position unless the function takes one
    /// parameter per array).
    pub fn zip_map<F: Fn(Vec<Variable>) -> Result<Variable, ExecError>>(
        arrays: &Vec<Variable>,
        arity: usize,
        call: &F,
    ) -> (r: Result<Vec<Variable>, ExecError>)
        requires
            arrays.len() > 0,
            forall|k: int| 0 <= k < arrays.len() ==> #[trigger] arrays@[k] is Array,
            forall|k: int| 0 <= k < arrays.len() ==> (#[trigger] arrays@[k])->Array_0.len() <= i64::MAX,
            forall|a: Vec<Variable>| call.requires((a,)),
        ensures
            mapped(
                *call,
                shortest(values(arrays@)),
                |i: int| zip_args(arity, values(arrays@), i),
                result_values(r),
            ),
    {
        proof {
            lemma_values(arrays@);
        }
        let len = shortest_len(arrays);
        let ghost args = |i: int| zip_args(arity, values(arrays@), i);
        let make = |i: usize| -> (a: Vec<Variable>)
            requires
                i < len,
                len == shortest(values(arrays@)),
                arrays.len() > 0,
                forall|k: int| 0 <= k < arrays.len() ==> #[trigger] arrays@[k] is Array,
                forall|k: int| 0 <= k < arrays.len() ==> (#[trigger] arrays@[k])->Array_0.len() <= i64::MAX,
            ensures
                values(a@) == zip_args(arity, values(arrays@), i as int),
            {
                column_at(arrays, i, arity, len)
            };
        call_each(len, &make, Ghost(args), call)
    }
}

fn shortest_len(arrays: &Vec<Variable>) -> (r: usize)
    requires
        arrays.len() > 0,
        forall|k: int| 0 <= k < arrays.len() ==> #[trigger] arrays@[k] is Array,
    ensures
        r == shortest(values(arrays@)),
        forall|k: int| 0 <= k < arrays.len() ==> r <= (#[trigger] arrays@[k])->Array_0.len(),
{
    proof {
        lemma_values(arrays@);
    }
    let mut best: usize = match &arrays[0] {
        Variable::Array(a) => a.len(),
        _ => 0,
    };
    proof {
        lemma_values(arrays@[0]->Array_0@);
        assert(values(arrays@).take(1) =~= seq![values(arrays@)[0]]);
    }
    let mut k: usize = 1;
    while k < arrays.len()
        invariant
            1 <= k <= arrays.len(),
            forall|k: int| 0 <= k < arrays.len() ==> #[trigger] arrays@[k] is Array,
            values(arrays@).len() == arrays.len(),
            forall|j: int| 0 <= j < arrays.len() ==> #[trigger] values(arrays@)[j] == arrays@[j]@,
            best == shortest(values(arrays@).take(k as int)),
            forall|j: int| 0 <= j < k ==> best <= (#[trigger] arrays@[j])->Array_0.len(),
        decreases arrays.len() - k,
    {
        let n = match &arrays[k] {
            Variable::Array(a) => a.len(),
            _ => 0,
        };
        proof {
            lemma_values(arrays@[k as int]->Array_0@);
            assert(values(arrays@).take(k + 1).subrange(0, k as int) =~= values(arrays@).take(
                k as int,
            ));
        }
        if n < best {
            best = n;
        }
        k += 1;
    }
    proof {
        assert(values(arrays@).take(arrays.len() as int) =~= values(arrays@));
    }
    best
}

fn column_at(arrays: &Vec<Variable>, i: usize, arity: usize, len: usize) -> (r: Vec<Variable>)
    requires
        i < len,
        arrays.len() > 0,
        forall|k: int| 0 <= k < arrays.len() ==> #[trigger] arrays@[k] is Array,
        forall|k: int| 0 <= k < arrays.len() ==> (#[trigger] arrays@[k])->Array_0.len() <= i64::MAX,
        len == shortest(values(arrays@)),
    ensures
        values(r@) == zip_args(arity, values(arrays@), i as int),
{
    let n = shortest_len(arrays);
    let mut r: Vec<Variable> = Vec::new();
    let add_index = arity != arrays.len();
    if add_index {
        r.push(Variable::Int(i as i64));
    }
    let offset: usize = if add_index { 1 } else { 0 };
    proof {
        lemma_values(arrays@);
    }
    let mut k: usize = 0;
    while k < arrays.len()
        invariant
            0 <= k <= arrays.len(),
            i < len,
            n == len,
            forall|k: int| 0 <= k < arrays.len() ==> #[trigger] arrays@[k] is Array,
            forall|k: int| 0 <= k < arrays.len() ==> n <= (#[trigger] arrays@[k])->Array_0.len(),
            values(arrays@).len() == arrays.len(),
            forall|j: int| 0 <= j < arrays.len() ==> #[trigger] values(arrays@)[j] == arrays@[j]@,
            r.len() == k + offset,
            offset == (if add_index { 1usize } else { 0usize }),
            add_index ==> r@[0]@ == Value::Int(i as i64),
            forall|j: int|
                0 <= j < k ==> #[trigger] r@[j + offset]@ == values(arrays@)[j]->Array_0[i as int],
        decreases arrays.len() - k,
    {
        let element = match &arrays[k] {
            Variable::Array(a) => {
                proof {
                    lemma_values(a@);
                }
                a[i].clone()
            },
            _ => Variable::Void,
        };
        r.push(element);
        k += 1;
    }
    proof {
        lemma_values(r@);
        let col = column(values(arrays@), i as int);
        if add_index {
            assert forall|j: int| 1 <= j < r.len() implies #[trigger] values(r@)[j] == (seq![
                Value::Int(i as i64),
            ] + col)[j] by {
                assert(r@[(j - 1) + offset]@ == values(arrays@)[j - 1]->Array_0[i as int]);
            }
            assert(values(r@) =~= seq![Value::Int(i as i64)] + col);
        } else {
            assert forall|j: int| 0 <= j < r.len() implies #[trigger] values(r@)[j] == col[j] by {
                assert(r@[j + offset]@ == values(arrays@)[j]->Array_0[i as int]);
            }
            assert(values(r@) =~= col);
        }
    }
    r
}


/// The shortest length of several arrays is no longer than any of them and
/// is the length of one of them.
pub proof fn lemma_shortest(arrays: Seq<Value>)
    requires
        arrays.len() > 0,
    ensures
        forall|i: int| 0 <= i < arrays.len() ==> shortest(arrays) <= (#[trigger] arrays[i])->Array_0.len(),
        exists|i: int| 0 <= i < arrays.len() && shortest(arrays) == (#[trigger] arrays[i])->Array_0.len(),
    decreases arrays.len(),
{
    if arrays.len() == 1 {
        assert(shortest(arrays) == arrays[0]->Array_0.len());
    } else {
        let d = arrays.subrange(0, arrays.len() - 1);
        lemma_shortest(d);
        assert forall|i: int| 0 <= i < arrays.len() implies shortest(arrays) <= (
        #[trigger] arrays[i])->Array_0.len() by {
            if i < arrays.len() - 1 {
                assert(arrays[i] == d[i]);
            }
        }
        let j = choose|j: int| 0 <= j < d.len() && shortest(d) == (#[trigger] d[j])->Array_0.len();
        assert(d[j] == arrays[j]);
        if arrays[arrays.len() - 1]->Array_0.len() < shortest(d) {
            assert(shortest(arrays) == arrays[arrays.len() - 1]->Array_0.len());
        } else {
            assert(shortest(arrays) == arrays[j]->Array_0.len());
        }
    }
}

} // verus!
