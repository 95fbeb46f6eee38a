use crate::errors::error::Error;
use crate::errors::exec_error::ExecError;
use crate::variable::value::{lemma_array_type_matches, lemma_values, type_of, values, Value, Variable};
use crate::variable::var_type::{lemma_matches_reflexive, type_matches, Type, TypeView};
use vstd::prelude::*;

verus! {

/// The array literal `[value; len]`: `len` copies of `value`.
pub struct ArrayRepeat;

/// What `[value; len]` computes has the type `[t]`, `t` the type of the value,
/// that the type check gives it.
pub proof fn lemma_array_repeat_result_type(value: Value, len: nat)
    ensures
        type_matches(
            type_of(Value::Array(Seq::new(len, |_i: int| value))),
            TypeView::Array(Box::new(type_of(value))),
        ),
{
    lemma_matches_reflexive(type_of(value));
    let xs = Seq::new(len, |_i: int| value);
    assert forall|i: int| 0 <= i < xs.len() implies type_matches(type_of(#[trigger] xs[i]), type_of(value)) by {}
    lemma_array_type_matches(xs, type_of(value));
}

impl ArrayRepeat {
    /// Checks the length of `[value; len]`, of type `len_type` and written
    /// `len_text`: its type must match `int`.
    pub fn check(len_type: &Type, len_text: &str) -> (r: Result<(), Error>)
        ensures
            type_matches(len_type@, TypeView::Int) ==> r is Ok,
            !type_matches(len_type@, TypeView::Int) ==> (r matches Err(Error::WrongLengthType(s))
                && s@ == len_text@),
    {
        let int_type = Type::Int;
        proof {
            assert(int_type@ == TypeView::Int);
        }
        if !len_type.matches(&int_type) {
            return Err(Error::WrongLengthType(len_text.to_string()));
        }
        Ok(())
    }

    /// `[value; len]`: an array of `len` copies of `value`; a negative length
    /// is an error.
    pub fn exec(value: &Variable, len: i64) -> (r: Result<Variable, ExecError>)
        requires
            len <= usize::MAX,
        ensures
            len < 0 ==> r == Err::<Variable, ExecError>(ExecError::NegativeLength),
            len >= 0 ==> (r matches Ok(v) && v@ == Value::Array(
                Seq::new(len as nat, |_i: int| value@),
            )),
    {
        if len < 0 {
            return Err(ExecError::NegativeLength);
        }
        let n: usize = len as usize;
        let mut out: Vec<Variable> = Vec::new();
        let mut i: usize = 0;
        while i < n
            invariant
                0 <= i <= n,
                out.len() == i,
                forall|j: int| 0 <= j < i ==> #[trigger] out@[j]@ == value@,
            decreases n - i,
        {
            out.push(value.clone());
            i += 1;
        }
        proof {
            lemma_values(out@);
            assert(values(out@) =~= Seq::new(len as nat, |_i: int| value@));
        }
        Ok(Variable::Array(out))
    }

    /// The type of `[value; len]` for a value of type `value_type`.
    pub fn return_type(value_type: &Type) -> (r: Type)
        ensures
            r@ == TypeView::Array(Box::new(value_type@)),
    {
        Type::array(value_type.clone())
    }
}

} // verus!
