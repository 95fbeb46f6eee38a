use crate::errors::error::Error;
use crate::errors::exec_error::ExecError;
use crate::instruction::array_ops::call::{args2, call_with, returned};
use crate::variable::value::{lemma_values, values, Value, Variable};
use crate::variable::var_type::{
    element_type, return_type, type_matches, union, vec2, Type, TypeView,
};
use vstd::prelude::*;

verus! {

/// The `$` operator: folds an array with a function, from an initial value.
pub struct Reduce;

/// The type that the reducing function must have for an array of elements of
/// type `element` and results of type `result`: it takes the accumulated value
/// (the initial value, an element or an earlier result) and an element.
pub open spec fn expected_function(initial: TypeView, element: TypeView, result: TypeView) -> TypeView {
    TypeView::Function(seq![union(union(initial, element), result), element], Box::new(result))
}

/// What the type check of `array $ initial function` concludes.
#[derive(Debug, PartialEq, Eq)]
pub enum ReduceCheck {
    /// The array is always empty: the reduction is the initial value.
    InitialValue,
    /// The reduction is well typed.
    Fold,
}

/// The outcome of the type check of `array $ initial function` for operands of
/// the given types, an error given by the name and the type of the operand
/// that is wrong: the array must be an array; an array that is always empty
/// reduces to the initial value; otherwise the operand must be a function whose
/// type matches the one that the element type and its own result require.
pub open spec fn check_outcome(array: TypeView, initial: TypeView, function: TypeView) -> Result<ReduceCheck, (Seq<char>, TypeView)> {
    match element_type(array) {
        None => Err(("array"@, TypeView::Array(Box::new(TypeView::Any)))),
        Some(e) => if e == TypeView::Never {
            Ok(ReduceCheck::InitialValue)
        } else {
            match return_type(function) {
                None => Err(("function"@, TypeView::Function(seq![TypeView::Any, e], Box::new(TypeView::Any)))),
                Some(res) => {
                    let expected = expected_function(initial, e, res);
                    if type_matches(function, expected) {
                        Ok(ReduceCheck::Fold)
                    } else {
                        Err(("function"@, expected))
                    }
                },
            }
        },
    }
}

impl Reduce {
    /// Checks `array $ initial function` for operands of the given types.
    pub fn check(array_type: &Type, initial_type: &Type, function_type: &Type) -> (r: Result<
        ReduceCheck,
        Error,
    >)
        ensures
            match r {
                Ok(c) => check_outcome(array_type@, initial_type@, function_type@) == Ok::<
                    ReduceCheck,
                    (Seq<char>, TypeView),
                >(c),
                Err(e) => e matches Error::WrongType(name, t) && check_outcome(
                    array_type@,
                    initial_type@,
                    function_type@,
                ) == Err::<ReduceCheck, (Seq<char>, TypeView)>((name@, t@)),
            },
    {
        let element = match array_type.element_type() {
            Some(e) => e,
            None => {
                let t = Type::array(Type::Any);
                proof {
                    assert(Type::Any@ == TypeView::Any);
                }
                return Err(Error::WrongType("array".to_string(), t));
            },
        };
        if let Type::Never = element {
            return Ok(ReduceCheck::InitialValue);
        }
        let result = match function_type.return_type() {
            Some(t) => t,
            None => {
                let t = Type::function(vec2(Type::Any, element), Type::Any);
                proof {
                    assert(Type::Any@ == TypeView::Any);
                }
                return Err(Error::WrongType("function".to_string(), t));
            },
        };
        let acc = initial_type.clone().union(element.clone()).union(result.clone());
        let expected = Type::function(vec2(acc, element), result);
        if !function_type.matches(&expected) {
            return Err(Error::WrongType("function".to_string(), expected));
        }
        Ok(ReduceCheck::Fold)
    }

    /// The type of `array $ initial function`: what the function returns or the
    /// initial value.
    pub fn return_type(initial_type: &Type, function_type: &Type) -> (r: Type)
        requires
            return_type(function_type@) is Some,
        ensures
            r@ == union(return_type(function_type@)->0, initial_type@),
    {
        function_type.return_type().unwrap().union(initial_type.clone())
    }

    /// `array $ initial function`, where `call` calls the function with the
    /// given arguments: starting from `initial`, each element in turn is
    /// passed with the value so far, and the result becomes the next value.
    /// The first error that a call returns is returned.
    pub fn exec<F: Fn(Vec<Variable>) -> Result<Variable, ExecError>>(
        array: &Vec<Variable>,
        initial: Variable,
        call: &F,
    ) -> (r: Result<Variable, ExecError>)
        requires
            forall|a: Vec<Variable>| call.requires((a,)),
        ensures
            match r {
                Ok(v) => exists|accs: Seq<Value>|
                    accs.len() == array.len() + 1 && accs[0] == initial@ && accs[array.len() as int]
                        == v@ && forall|i: int|
                        0 <= i < array.len() ==> returned(
                            *call,
                            seq![accs[i], #[trigger] values(array@)[i]],
                            Ok(accs[i + 1]),
                        ),
                Err(e) => exists|n: int, accs: Seq<Value>|
                    0 <= n < array.len() && accs.len() == n + 1 && accs[0] == initial@ && (forall|
                        i: int,
                    |
                        0 <= i < n ==> returned(
                            *call,
                            seq![accs[i], #[trigger] values(array@)[i]],
                            Ok(accs[i + 1]),
                        )) && returned(*call, seq![accs[n], values(array@)[n]], Err(e)),
            },
    {
        proof {
            lemma_values(array@);
        }
        let ghost mut accs: Seq<Value> = seq![initial@];
        let mut acc = initial;
        let mut i: usize = 0;
        while i < array.len()
            invariant
                0 <= i <= array.len(),
                forall|a: Vec<Variable>| call.requires((a,)),
                values(array@).len() == array.len(),
                forall|j: int| 0 <= j < array.len() ==> #[trigger] values(array@)[j] == array@[j]@,
                accs.len() == i + 1,
                accs[0] == initial@,
                accs[i as int] == acc@,
                forall|j: int|
                    0 <= j < i ==> returned(
                        *call,
                        seq![accs[j], #[trigger] values(array@)[j]],
                        Ok(accs[j + 1]),
                    ),
            decreases array.len() - i,
        {
            let args = args2(acc, array[i].clone());
            assert(values(args@) == seq![accs[i as int], values(array@)[i as int]]);
            match call_with(call, args) {
                Ok(v) => {
                    proof {
                        accs = accs.push(v@);
                    }
                    acc = v;
                },
                Err(e) => {
                    proof {
                        let n = i as int;
                        assert(0 <= n < array.len() && accs.len() == n + 1 && accs[0] == initial@);
                    }
                    return Err(e);
                },
            }
            i += 1;
        }
        Ok(acc)
    }
}

} // verus!
