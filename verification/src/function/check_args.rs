use crate::errors::error::Error;
use crate::function::param::Params;
use crate::variable::var_type::{type_matches, Type};
use vstd::prelude::*;

verus! {

/// Checks that arguments of types `args` can be passed to a function with
/// parameters `params`: there must be one argument per parameter, and each
/// argument type must match the type of its parameter. The first parameter
/// whose argument does not match is reported.
pub fn check_args(var_name: &str, params: &Params, args: &[Type]) -> (r: Result<(), Error>)
    ensures
        params@.len() != args@.len() ==> (r matches Err(Error::WrongNumberOfArguments(name, n))
            && name@ == var_name@ && n == params@.len()),
        params@.len() == args@.len() ==> match r {
            Ok(()) => forall|i: int|
                0 <= i < args@.len() ==> type_matches(#[trigger] args@[i]@, params@[i].var_type@),
            Err(Error::WrongType(name, t)) => exists|i: int|
                0 <= i < args@.len() && !type_matches(#[trigger] args@[i]@, params@[i].var_type@)
                    && name@ == params@[i].name@ && t@ == params@[i].var_type@ && forall|j: int|
                    0 <= j < i ==> type_matches(#[trigger] args@[j]@, params@[j].var_type@),
            _ => false,
        },
{
    if params.len() != args.len() {
        return Err(Error::WrongNumberOfArguments(var_name.to_string(), params.len()));
    }
    let mut i: usize = 0;
    while i < args.len()
        invariant
            0 <= i <= args@.len(),
            params@.len() == args@.len(),
            forall|j: int| 0 <= j < i ==> type_matches(#[trigger] args@[j]@, params@[j].var_type@),
        decreases args.len() - i,
    {
        let param = &params.0[i];
        if !args[i].matches(&param.var_type) {
            return Err(Error::WrongType(param.name.clone(), param.var_type.clone()));
        }
        i += 1;
    }
    Ok(())
}

} // verus!
