use crate::errors::exec_error::ExecError;
use crate::instruction::exec_stop::ExecStop;
use crate::interpreter::eval::{eval_all, last_or_void, lemma_eval_all_fuel, StateView};
use crate::interpreter::exec::{exec_all, op_outcome};
use crate::interpreter::instruction::{instr_views, InstrView, Instruction};
use crate::errors::error::Error;
use crate::interpreter::reader::{build_all, read_all, reports, LocalVariables};
use crate::interpreter::script::{parse_script, parse_script_spec};
use crate::interpreter::state::Interpreter;
use crate::variable::var_type::TypeView;
use crate::variable::value::{lemma_values, Value, Variable};
use vstd::prelude::*;

verus! {

/// A script ready to run: its instructions, in order.
#[derive(Debug)]
pub struct Code {
    pub instructions: Vec<Instruction>,
}

/// What running the instructions `code` on the variables `st` gives: the
/// value of the last one (`()` when there is none) or the first error, and
/// the variables afterwards; `None` as for `eval`, and for a `break` or
/// `continue` outside a loop.
pub open spec fn run(code: Seq<InstrView>, st: StateView, fuel: nat) -> Option<
    (Result<Value, ExecError>, StateView),
> {
    match eval_all(code, st, fuel) {
        Some((Ok(vs), s)) => Some((Ok(last_or_void(vs)), s)),
        Some((Err(ExecStop::Error(e)), s)) => Some((Err(e), s)),
        _ => None,
    }
}

/// A script that finished with some fuel finishes the same way with more.
pub proof fn lemma_run_fuel(code: Seq<InstrView>, st: StateView, f: nat, g: nat)
    requires
        f <= g,
    ensures
        run(code, st, f) is Some ==> run(code, st, g) == run(code, st, f),
{
    lemma_eval_all_fuel(code, st, f, g);
}

/// The result alone of a run.
pub open spec fn run_result(r: Option<(Result<Value, ExecError>, StateView)>) -> Option<
    Result<Value, ExecError>,
> {
    match r {
        Some((res, _)) => Some(res),
        None => None,
    }
}

/// What a run of a script that returned `r` and left the variables `st`
/// amounts to.
pub open spec fn code_outcome(r: Option<Result<Variable, ExecError>>, st: StateView) -> Option<
    (Result<Value, ExecError>, StateView),
> {
    match r {
        Some(Ok(v)) => Some((Ok(v@), st)),
        Some(Err(e)) => Some((Err(e), st)),
        None => None,
    }
}

impl Code {
    pub open spec fn view(&self) -> Seq<InstrView> {
        instr_views(self.instructions@)
    }

    /// Reads a script: its text is parsed (see `parse_script_spec`), then its
    /// statements are checked and turned into instructions (see `build`),
    /// from no known variable and outside any loop.
    pub fn parse(text: &str) -> (r: Result<Code, Error>)
        ensures
            r is Ok <==> (parse_script_spec(text@) matches Some(ts) && build_all(
                ts,
                Seq::<(Seq<char>, TypeView)>::empty(),
                false,
            ) is Ok),
            r matches Ok(c) ==> (parse_script_spec(text@) matches Some(ts) && build_all(
                ts,
                Seq::<(Seq<char>, TypeView)>::empty(),
                false,
            ) matches Ok((is, _, _)) && c@ == is),
            r matches Err(e) ==> match parse_script_spec(text@) {
                None => e matches Error::Parsing(m) && m@ == text@,
                Some(ts) => build_all(ts, Seq::<(Seq<char>, TypeView)>::empty(), false) matches Err(
                    f,
                ) && reports(e, f),
            },
    {
        let trees = match parse_script(text) {
            Ok(ts) => ts,
            Err(e) => return Err(e),
        };
        let mut locals = LocalVariables::new();
        match read_all(&trees, &mut locals) {
            Ok((instructions, _)) => Ok(Code { instructions }),
            Err(e) => Err(e),
        }
    }

    /// Runs the script on the variables of `state`, which keeps what it sets.
    pub fn exec_unscoped(&self, state: &mut Interpreter, fuel: u64) -> (r: Option<
        Result<Variable, ExecError>,
    >)
        ensures
            code_outcome(r, final(state)@) == run(self@, old(state)@, fuel as nat),
    {
        match exec_all(&self.instructions, state, fuel) {
            Some(Ok(vs)) => {
                proof {
                    lemma_values(vs@);
                }
                if vs.len() == 0 {
                    Some(Ok(Variable::Void))
                } else {
                    Some(Ok(vs[vs.len() - 1].clone()))
                }
            },
            Some(Err(ExecStop::Error(e))) => Some(Err(e)),
            _ => None,
        }
    }

    /// Runs the script on no variables.
    pub fn exec(&self, fuel: u64) -> (r: Option<Result<Variable, ExecError>>)
        ensures
            op_outcome(r) == run_result(
                run(self@, Seq::<(Seq<char>, Value)>::empty(), fuel as nat),
            ),
    {
        let mut state = Interpreter::new();
        self.exec_unscoped(&mut state, fuel)
    }
}

} // verus!
