use crate::errors::error::Error;
use crate::errors::exec_error::ExecError;
use crate::variable::value::{
    lemma_union_of_types_upper_bound, lemma_values, type_of, values, Value, Variable,
};
use crate::variable::var_type::{index_result, type_matches, Type, TypeView};
use std::ops::Range;
use vstd::prelude::*;
use vstd::string::StrSliceExecFns;

verus! {

/// Number of characters of a string, or of elements of an array.
pub open spec fn length(v: Value) -> int {
    match v {
        Value::String(s) => s.len() as int,
        Value::Array(xs) => xs.len() as int,
        _ => 0,
    }
}

/// `v[index]`: a negative index counts from the end; an index out of the
/// bounds of `v` is an error. Indexing a string gives a string of one character.
pub open spec fn at(v: Value, index: int) -> Result<Value, ExecError> {
    let i = if index >= 0 {
        index
    } else {
        length(v) + index
    };
    if i < 0 || i >= length(v) {
        Err(ExecError::IndexOutOfBounds)
    } else {
        match v {
            Value::String(s) => Ok(Value::String(seq![s[i]])),
            Value::Array(xs) => Ok(xs[i]),
            _ => Err(ExecError::IndexOutOfBounds),
        }
    }
}

/// A negative index counts from the end, for strings as for arrays: `v[k]`
/// reads what `v[len + k]` reads.
pub proof fn lemma_at_negative(v: Value, k: int)
    requires
        v is String || v is Array,
        -length(v) <= k < 0,
    ensures
        at(v, k) == at(v, length(v) + k),
{
}

/// An index within the bounds reads the element at that position (a string
/// gives the one-character string of its character there); an index beyond
/// them, from either end, is an error.
pub proof fn lemma_at_bounds(s: Seq<char>, xs: Seq<Value>, k: int)
    ensures
        0 <= k < s.len() ==> at(Value::String(s), k) == Ok::<Value, ExecError>(
            Value::String(seq![s[k]]),
        ),
        0 <= k < xs.len() ==> at(Value::Array(xs), k) == Ok::<Value, ExecError>(xs[k]),
        (k >= s.len() || k < -s.len()) ==> at(Value::String(s), k) == Err::<Value, ExecError>(
            ExecError::IndexOutOfBounds,
        ),
        (k >= xs.len() || k < -xs.len()) ==> at(Value::Array(xs), k) == Err::<Value, ExecError>(
            ExecError::IndexOutOfBounds,
        ),
{
}

pub open spec fn result_value(r: Result<Variable, ExecError>) -> Result<Value, ExecError> {
    match r {
        Ok(v) => Ok(v@),
        Err(e) => Err(e),
    }
}

/// An element read from a string or an array has a type that matches the
/// type that indexing a value of its type gives.
pub proof fn lemma_at_result_type(v: Value, index: int)
    requires
        v is String || v is Array,
        at(v, index) is Ok,
    ensures
        index_result(type_of(v)) is Some,
        type_matches(type_of(at(v, index)->Ok_0), index_result(type_of(v))->0),
{
    if let Value::Array(xs) = v {
        let i = if index >= 0 {
            index
        } else {
            xs.len() + index
        };
        lemma_union_of_types_upper_bound(xs, i);
    }
}

/// The string made of one character.
#[verifier::external_body]
fn char_to_string(c: char) -> (r: String)
    ensures
        r@ == seq![c],
{
    c.to_string()
}

/// The indices accepted for a sequence of `value` items: from `-value` up to,
/// but not including, `value`.
pub fn range(value: usize) -> (r: Range<i64>)
    requires
        value <= i64::MAX,
    ensures
        r.start == -value,
        r.end == value,
{
    let value = value as i64;
    -value..value
}

/// Indexes into a string or an array.
pub fn exec(variable: Variable, index: Variable) -> (r: Result<Variable, ExecError>)
    requires
        index is Int,
        variable is String || variable is Array,
    ensures
        result_value(r) == at(variable@, index->Int_0 as int),
{
    let index = match index {
        Variable::Int(i) => i,
        _ => 0,
    };
    let len: usize = match &variable {
        Variable::String(s) => s.as_str().unicode_len(),
        Variable::Array(a) => a.len(),
        _ => 0,
    };
    proof {
        if variable is Array {
            lemma_values(variable->Array_0@);
        }
    }
    let i: usize = if index >= 0 {
        if index as u64 >= len as u64 {
            return Err(ExecError::IndexOutOfBounds);
        }
        index as usize
    } else {
        let back: u64 = (-(index as i128)) as u64;
        if back > len as u64 {
            return Err(ExecError::IndexOutOfBounds);
        }
        (len as u64 - back) as usize
    };
    match variable {
        Variable::String(s) => {
            let c = s.as_str().get_char(i);
            Ok(Variable::String(char_to_string(c)))
        },
        Variable::Array(a) => Ok(a[i].duplicate()),
        _ => Err(ExecError::IndexOutOfBounds),
    }
}

/// The type `string | [any]` of the values that can be indexed.
pub fn indexable_type() -> (r: Type)
    ensures
        r@ == TypeView::Multi(seq![TypeView::String, TypeView::Array(Box::new(TypeView::Any))]),
{
    let mut v: Vec<Type> = Vec::new();
    v.push(Type::String);
    v.push(Type::Array(Box::new(Type::Any)));
    proof {
        crate::variable::var_type::lemma_views(v@);
        assert(v@[0]@ == TypeView::String);
        assert(Type::Any@ == TypeView::Any);
        assert(v@[1]@ == TypeView::Array(Box::new(TypeView::Any)));
        assert(crate::variable::var_type::views(v@) =~= seq![
            TypeView::String,
            TypeView::Array(Box::new(TypeView::Any)),
        ]);
    }
    Type::Multi(v)
}

/// Checks `instruction[index]`: the index must be an `int` and the indexed
/// value must be a `string` or an array.
pub fn check(instruction_type: &Type, index_str: &str, index_type: &Type) -> (r: Result<(), Error>)
    ensures
        index_type@ != TypeView::Int ==> (r matches Err(Error::CannotIndexWith(s)) && s@
            == index_str@),
        index_type@ == TypeView::Int && !type_matches(
            instruction_type@,
            TypeView::Multi(seq![TypeView::String, TypeView::Array(Box::new(TypeView::Any))]),
        ) ==> (r matches Err(Error::CannotIndexInto(t)) && t@ == instruction_type@),
        index_type@ == TypeView::Int && type_matches(
            instruction_type@,
            TypeView::Multi(seq![TypeView::String, TypeView::Array(Box::new(TypeView::Any))]),
        ) ==> r is Ok,
{
    if !index_type.equals(&Type::Int) {
        return Err(Error::CannotIndexWith(index_str.to_string()));
    }
    if !instruction_type.matches(&indexable_type()) {
        return Err(Error::CannotIndexInto(instruction_type.clone()));
    }
    Ok(())
}

} // verus!
