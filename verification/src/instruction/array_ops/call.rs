use crate::errors::exec_error::ExecError;
use crate::instruction::at::result_value;
use crate::variable::value::{lemma_values, values, Value, Variable};
use vstd::prelude::*;

verus! {

/// `call`, given arguments of the values `args`, may return `res`.
pub open spec fn returned<F: Fn(Vec<Variable>) -> Result<Variable, ExecError>>(
    call: F,
    args: Seq<Value>,
    res: Result<Value, ExecError>,
) -> bool {
    exists|a: Vec<Variable>, r: Result<Variable, ExecError>|
        #![trigger call.ensures((a,), r)]
        values(a@) == args && result_value(r) == res && call.ensures((a,), r)
}

/// Calls `call` with `args`; the result is one that `call` may return.
pub fn call_with<F: Fn(Vec<Variable>) -> Result<Variable, ExecError>>(
    call: &F,
    args: Vec<Variable>,
) -> (r: Result<Variable, ExecError>)
    requires
        call.requires((args,)),
    ensures
        returned(*call, values(args@), result_value(r)),
{
    let ghost a = args;
    let r = call(args);
    assert(call.ensures((a,), r));
    r
}

/// The arguments `[x]`.
pub fn args1(x: Variable) -> (r: Vec<Variable>)
    ensures
        values(r@) == seq![x@],
{
    let mut r: Vec<Variable> = Vec::new();
    r.push(x);
    proof {
        lemma_values(r@);
        assert(values(r@) =~= seq![x@]);
    }
    r
}

/// The arguments `[x, y]`.
pub fn args2(x: Variable, y: Variable) -> (r: Vec<Variable>)
    ensures
        values(r@) == seq![x@, y@],
{
    let mut r: Vec<Variable> = Vec::new();
    r.push(x);
    r.push(y);
    proof {
        lemma_values(r@);
        assert(values(r@) =~= seq![x@, y@]);
    }
    r
}

} // verus!
