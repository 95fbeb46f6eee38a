use crate::bin_operator::BinOperator;
use crate::errors::exec_error::ExecError;
use crate::instruction::exec_stop::ExecStop;
use crate::function::function::Function;
use crate::function::param::param_views;
use crate::interpreter::eval::param_names;
use crate::interpreter::recreate::{names, recreate_all};
use crate::instruction::add::Add;
use crate::instruction::array_repeat::ArrayRepeat;
use crate::instruction::at;
use crate::instruction::bin::bin_or::BinOr;
use crate::instruction::bin::rshift::RShift;
use crate::instruction::bin_op::{equal, not_equal};
use crate::instruction::array_ops::filter::kept;
use crate::interpreter::eval::{
    apply_op, bind, each_args, eval, eval_all, eval_each, last_or_void, lemma_eval_each_len,
    StateView,
};
use crate::interpreter::instruction::{
    instr_views, lemma_instr_views, BinOperation, InstrView, Instruction,
};
use crate::interpreter::arith::arith_operator;
use crate::interpreter::state::Interpreter;
use crate::variable::value::{lemma_values, values, Value, Variable};
use vstd::prelude::*;

verus! {

/// What a run that returned `r` and left the variables `st` amounts to.
pub open spec fn outcome(r: Option<Result<Variable, ExecStop>>, st: StateView) -> Option<
    (Result<Value, ExecStop>, StateView),
> {
    match r {
        Some(Ok(v)) => Some((Ok(v@), st)),
        Some(Err(e)) => Some((Err(e), st)),
        None => None,
    }
}

/// What a run of several instructions that returned `r` and left the
/// variables `st` amounts to.
pub open spec fn outcome_all(r: Option<Result<Vec<Variable>, ExecStop>>, st: StateView) -> Option<
    (Result<Seq<Value>, ExecStop>, StateView),
> {
    match r {
        Some(Ok(vs)) => Some((Ok(values(vs@)), st)),
        Some(Err(e)) => Some((Err(e), st)),
        None => None,
    }
}

pub open spec fn op_outcome(r: Option<Result<Variable, ExecError>>) -> Option<Result<Value, ExecError>> {
    match r {
        Some(Ok(v)) => Some(Ok(v@)),
        Some(Err(e)) => Some(Err(e)),
        None => None,
    }
}

/// `st` begins with `prefix`.
pub open spec fn extends(st: StateView, prefix: StateView) -> bool {
    prefix.len() <= st.len() && st.subrange(0, prefix.len() as int) == prefix
}

/// `lhs op rhs` for the values of the operands, for the operators other than
/// `&&` and `||` (see `apply_op`).
pub fn apply_operator(op: BinOperator, lhs: Variable, rhs: Variable) -> (r: Option<
    Result<Variable, ExecError>,
>)
    ensures
        op_outcome(r) == apply_op(op, lhs@, rhs@),
{
    match op {
        BinOperator::Add => {
            let ok = match (&lhs, &rhs) {
                (Variable::Int(a), Variable::Int(b)) => a.checked_add(*b).is_some(),
                (Variable::String(_), Variable::String(_)) => true,
                _ => false,
            };
            if ok {
                Some(Ok(Add::exec(&lhs, &rhs)))
            } else {
                None
            }
        },
        BinOperator::Equal => Some(Ok(equal::exec(lhs, rhs))),
        BinOperator::NotEqual => Some(Ok(not_equal::exec(lhs, rhs))),
        BinOperator::BitwiseOr => if BinOr::defined(&lhs, &rhs) {
            Some(Ok(BinOr::bin_or(&lhs, &rhs)))
        } else {
            None
        },
        BinOperator::RShift => match (&lhs, &rhs) {
            (_, Variable::Int(b)) if *b < 0 || *b > 63 => Some(Err(ExecError::OverflowShift)),
            (Variable::Int(_), Variable::Int(_)) => Some(RShift::exec(&lhs, &rhs)),
            _ => None,
        },
        BinOperator::At => {
            let ok = match (&lhs, &rhs) {
                (Variable::String(_), Variable::Int(_)) | (Variable::Array(_), Variable::Int(_)) => true,
                _ => false,
            };
            if ok {
                Some(at::exec(lhs, rhs))
            } else {
                None
            }
        },
        _ => match op {
            BinOperator::Subtract | BinOperator::Multiply | BinOperator::Divide
            | BinOperator::Modulo | BinOperator::Pow | BinOperator::BitwiseAnd
            | BinOperator::LShift | BinOperator::Xor | BinOperator::Lower | BinOperator::LowerOrEqual
            | BinOperator::Greater | BinOperator::GreaterOrEqual => arith_operator(op, &lhs, &rhs),
            _ => None,
        },
    }
}

/// The values `p` in front of those of a run of further instructions.
pub open spec fn prepend(p: Seq<Value>, res: Option<(Result<Seq<Value>, ExecStop>, StateView)>) -> Option<
    (Result<Seq<Value>, ExecStop>, StateView),
> {
    match res {
        Some((Ok(vs), s)) => Some((Ok(p + vs), s)),
        other => other,
    }
}

proof fn lemma_extends_trans(a: StateView, b: StateView, c: StateView)
    requires
        extends(a, b),
        extends(b, c),
    ensures
        extends(a, c),
{
    assert(a.subrange(0, c.len() as int) =~= b.subrange(0, c.len() as int));
}

proof fn lemma_extends_refl(a: StateView)
    ensures
        extends(a, a),
{
    assert(a.subrange(0, a.len() as int) =~= a);
}

proof fn lemma_values_push(s: Seq<Variable>, x: Variable)
    ensures
        values(s.push(x)) == values(s).push(x@),
{
    assert(s.push(x).subrange(0, s.len() as int) =~= s);
}

/// Runs `xs` from the first: their values, or the first error; `None` as for
/// [`Instruction::exec`].
pub fn exec_all(xs: &Vec<Instruction>, state: &mut Interpreter, fuel: u64) -> (r: Option<
    Result<Vec<Variable>, ExecStop>,
>)
    ensures
        outcome_all(r, final(state)@) == eval_all(instr_views(xs@), old(state)@, fuel as nat),
        r is Some ==> extends(final(state)@, old(state)@),
    decreases fuel, xs, 2nat,
{
    let ghost v = instr_views(xs@);
    let ghost s0 = state@;
    proof {
        lemma_instr_views(xs@);
        assert(v.subrange(0, v.len() as int) =~= v);
        lemma_values(Seq::<Variable>::empty());
        lemma_extends_refl(s0);
    }
    let mut out: Vec<Variable> = Vec::new();
    proof {
        assert(values(out@) =~= Seq::<Value>::empty());
        let res = eval_all(v, s0, fuel as nat);
        assert(prepend(Seq::<Value>::empty(), res) == res) by {
            if let Some((Ok(vs), s)) = res {
                assert(Seq::<Value>::empty() + vs =~= vs);
            }
        }
    }
    let mut i: usize = 0;
    while i < xs.len()
        invariant
            0 <= i <= xs.len(),
            v == instr_views(xs@),
            v.len() == xs.len(),
            forall|j: int| 0 <= j < xs.len() ==> #[trigger] v[j] == xs@[j]@,
            eval_all(v, s0, fuel as nat) == prepend(
                values(out@),
                eval_all(v.subrange(i as int, v.len() as int), state@, fuel as nat),
            ),
            extends(state@, s0),
            s0 == old(state)@,
        decreases xs.len() - i,
    {
        let ghost w = v.subrange(i as int, v.len() as int);
        let ghost si = state@;
        let ghost before = out@;
        proof {
            assert(w[0] == xs@[i as int]@);
            assert(w.subrange(1, w.len() as int) =~= v.subrange(i + 1, v.len() as int));
            assert(decreases_to!(xs => xs@[i as int]));
        }
        let res = xs[i].exec(state, fuel);
        proof {
            assert(outcome(res, state@) == eval(w[0], si, fuel as nat));
        }
        match res {
            Some(Ok(x)) => {
                proof {
                    lemma_extends_trans(state@, si, s0);
                    lemma_values_push(before, x);
                    let rest = eval_all(w.subrange(1, w.len() as int), state@, fuel as nat);
                    if let Some((Ok(vs), s)) = rest {
                        assert(values(before) + (seq![x@] + vs) =~= values(before).push(x@) + vs);
                    }
                }
                out.push(x);
            },
            Some(Err(e)) => {
                proof {
                    lemma_extends_trans(state@, si, s0);
                    assert(eval_all(w, si, fuel as nat) == Some(
                        (Err::<Seq<Value>, ExecStop>(e), state@),
                    ));
                }
                return Some(Err(e));
            },
            None => {
                proof {
                    assert(eval_all(w, si, fuel as nat) is None);
                }
                return None;
            },
        }
        i += 1;
    }
    proof {
        assert(v.subrange(xs.len() as int, v.len() as int) =~= Seq::<InstrView>::empty());
        assert(values(out@) + Seq::<Value>::empty() =~= values(out@));
    }
    Some(Ok(out))
}

fn last_or_void_of(rs: &Vec<Variable>) -> (r: Variable)
    ensures
        r@ == last_or_void(values(rs@)),
{
    proof {
        lemma_values(rs@);
    }
    if rs.len() == 0 {
        Variable::Void
    } else {
        rs[rs.len() - 1].clone()
    }
}

fn param_name_list(ps: &crate::function::param::Params) -> (r: Vec<String>)
    ensures
        names(r@) == param_names(param_views(ps@)),
{
    let mut r: Vec<String> = Vec::new();
    let mut k: usize = 0;
    while k < ps.0.len()
        invariant
            0 <= k <= ps@.len(),
            r.len() == k,
            forall|j: int| 0 <= j < k ==> #[trigger] r@[j]@ == ps@[j].name@,
        decreases ps@.len() - k,
    {
        r.push(ps.0[k].name.clone());
        k += 1;
    }
    assert(names(r@) =~= param_names(param_views(ps@)));
    r
}

/// What a run of a function on each element that returned `r` amounts to.
pub open spec fn each_outcome(r: Option<Result<Vec<Variable>, ExecStop>>) -> Option<
    Result<Seq<Value>, ExecStop>,
> {
    match r {
        Some(Ok(vs)) => Some(Ok(values(vs@))),
        Some(Err(e)) => Some(Err(e)),
        None => None,
    }
}

/// The results `p` in front of those of the calls on further elements.
pub open spec fn prepend_each(p: Seq<Value>, res: Option<Result<Seq<Value>, ExecStop>>) -> Option<
    Result<Seq<Value>, ExecStop>,
> {
    match res {
        Some(Ok(vs)) => Some(Ok(p + vs)),
        other => other,
    }
}

/// Binds the parameters `ps` to the values `vs`, in order, after the
/// variables of `state`.
fn bind_params(state: &mut Interpreter, ps: &crate::function::param::Params, vs: &Vec<Variable>)
    requires
        vs.len() == ps@.len(),
    ensures
        final(state)@ == bind(old(state)@, param_views(ps@), values(vs@)),
{
    let ghost s2 = state@;
    proof {
        lemma_values(vs@);
    }
    let mut k: usize = 0;
    while k < vs.len()
        invariant
            0 <= k <= vs.len(),
            vs.len() == ps@.len(),
            values(vs@).len() == vs.len(),
            forall|j: int| 0 <= j < vs.len() ==> #[trigger] values(vs@)[j] == vs@[j]@,
            state@ == s2 + Seq::new(k as nat, |j: int| (ps@[j].name@, values(vs@)[j])),
        decreases vs.len() - k,
    {
        state.insert(ps.0[k].name.clone(), vs[k].clone());
        proof {
            assert(state@ =~= s2 + Seq::new(
                (k + 1) as nat,
                |j: int| (ps@[j].name@, values(vs@)[j]),
            ));
        }
        k += 1;
    }
    assert(state@ =~= bind(s2, param_views(ps@), values(vs@)));
}

/// The arguments for the element `x` at `index` (see `each_args`).
fn element_arguments(n: usize, index: usize, x: &Variable) -> (r: Vec<Variable>)
    ensures
        values(r@) == each_args(n as nat, index as int, x@),
{
    let mut r: Vec<Variable> = Vec::new();
    if n != 1 {
        r.push(Variable::Int(index as i64));
    }
    r.push(x.clone());
    proof {
        lemma_values(r@);
        assert(values(r@) =~= each_args(n as nat, index as int, x@));
    }
    r
}

/// Calls `func` on each element of `xs`, from the first, on the variables of
/// `state`, which it leaves as they were: the results, or the first error
/// (see `eval_each`).
fn exec_each(func: &Function, xs: &Vec<Variable>, state: &mut Interpreter, fuel: u64) -> (r: Option<
    Result<Vec<Variable>, ExecStop>,
>)
    ensures
        each_outcome(r) == eval_each(func@, values(xs@), 0, old(state)@, fuel as nat),
        r is Some ==> final(state)@ == old(state)@,
    decreases fuel, xs, 0nat,
{
    let ghost x = values(xs@);
    let ghost s0 = state@;
    proof {
        lemma_values(xs@);
        assert(x.subrange(0, x.len() as int) =~= x);
    }
    let mut out: Vec<Variable> = Vec::new();
    proof {
        lemma_values(out@);
        let res = eval_each(func@, x, 0, s0, fuel as nat);
        assert(prepend_each(Seq::<Value>::empty(), res) == res) by {
            if let Some(Ok(vs)) = res {
                assert(Seq::<Value>::empty() + vs =~= vs);
            }
        }
    }
    let mut i: usize = 0;
    while i < xs.len()
        invariant
            0 <= i <= xs.len(),
            x == values(xs@),
            x.len() == xs.len(),
            forall|j: int| 0 <= j < xs.len() ==> #[trigger] x[j] == xs@[j]@,
            eval_each(func@, x, 0, s0, fuel as nat) == prepend_each(
                values(out@),
                eval_each(func@, x.subrange(i as int, x.len() as int), i as int, s0, fuel as nat),
            ),
            state@ == s0,
            s0 == old(state)@,
        decreases xs.len() - i,
    {
        let ghost w = x.subrange(i as int, x.len() as int);
        proof {
            assert(w[0] == xs@[i as int]@);
            assert(w.subrange(1, w.len() as int) =~= x.subrange(i + 1, x.len() as int));
        }
        if fuel == 0 {
            return None;
        }
        let args = element_arguments(func.params.0.len(), i, &xs[i]);
        proof {
            lemma_values(args@);
        }
        if args.len() != func.params.0.len() {
            return None;
        }
        let saved = state.variables.len();
        bind_params(state, &func.params, &args);
        let ghost s3 = state@;
        proof {
            assert(s3.subrange(0, s0.len() as int) =~= s0);
        }
        let res = exec_all(&func.body, state, fuel - 1);
        match res {
            Some(Ok(rs)) => {
                proof {
                    lemma_extends_trans(state@, s3, s0);
                }
                state.variables.truncate(saved);
                proof {
                    assert(state@ =~= s0);
                }
                let y = last_or_void_of(&rs);
                let ghost before = out@;
                out.push(y);
                proof {
                    lemma_values_push(before, y);
                    let rest = eval_each(
                        func@,
                        x.subrange(i + 1, x.len() as int),
                        i + 1,
                        s0,
                        fuel as nat,
                    );
                    if let Some(Ok(vs)) = rest {
                        assert(values(before) + (seq![y@] + vs) =~= values(before).push(y@) + vs);
                    }
                }
            },
            Some(Err(ExecStop::Error(e))) => {
                proof {
                    lemma_extends_trans(state@, s3, s0);
                }
                state.variables.truncate(saved);
                proof {
                    assert(state@ =~= s0);
                }
                return Some(Err(ExecStop::Error(e)));
            },
            _ => {
                return None;
            },
        }
        i += 1;
    }
    proof {
        assert(x.subrange(xs.len() as int, x.len() as int) =~= Seq::<Value>::empty());
        assert(values(out@) + Seq::<Value>::empty() =~= values(out@));
    }
    Some(Ok(out))
}

/// The elements of `xs` whose result in `rs` is not the integer `0`.
fn keep(xs: &Vec<Variable>, rs: &Vec<Variable>) -> (r: Vec<Variable>)
    requires
        xs.len() == rs.len(),
    ensures
        values(r@) == kept(values(xs@), values(rs@)),
{
    let ghost x = values(xs@);
    let ghost y = values(rs@);
    proof {
        lemma_values(xs@);
        lemma_values(rs@);
    }
    let mut out: Vec<Variable> = Vec::new();
    proof {
        lemma_values(out@);
        assert(values(out@) =~= kept(x.take(0), y.take(0)));
    }
    let mut i: usize = 0;
    while i < xs.len()
        invariant
            0 <= i <= xs.len(),
            xs.len() == rs.len(),
            x == values(xs@),
            y == values(rs@),
            x.len() == xs.len(),
            y.len() == rs.len(),
            forall|j: int| 0 <= j < xs.len() ==> #[trigger] x[j] == xs@[j]@,
            forall|j: int| 0 <= j < rs.len() ==> #[trigger] y[j] == rs@[j]@,
            values(out@) == kept(x.take(i as int), y.take(i as int)),
        decreases xs.len() - i,
    {
        let keep = match &rs[i] {
            Variable::Int(0) => false,
            _ => true,
        };
        proof {
            assert(y[i as int] == rs@[i as int]@);
            assert(keep == (y[i as int] != Value::Int(0)));
        }
        let ghost before = out@;
        if keep {
            out.push(xs[i].clone());
        }
        proof {
            assert(x.take(i + 1).subrange(0, i as int) =~= x.take(i as int));
            assert(y.take(i + 1).subrange(0, i as int) =~= y.take(i as int));
            assert(x.take(i + 1)[i as int] == x[i as int]);
            assert(y.take(i + 1)[i as int] == y[i as int]);
            lemma_values(before);
            lemma_values(out@);
            if keep {
                assert(values(out@) =~= values(before).push(x[i as int]));
            } else {
                assert(values(out@) =~= values(before));
            }
        }
        i += 1;
    }
    proof {
        assert(x.take(xs.len() as int) =~= x);
        assert(y.take(rs.len() as int) =~= y);
    }
    out
}

impl Instruction {
    /// `if c { a } else { e }` (see `eval`).
    fn exec_if(&self, state: &mut Interpreter, fuel: u64) -> (r: Option<Result<Variable, ExecStop>>)
        requires
            self is If,
        ensures
            outcome(r, final(state)@) == eval(self@, old(state)@, fuel as nat),
            r is Some ==> extends(final(state)@, old(state)@),
        decreases fuel, self, 0nat,
    {
        proof {
            lemma_extends_refl(state@);
        }
        match self {
            Instruction::If(c, a, e) => {
                let ghost s0 = state@;
                let x = match (**c).exec(state, fuel) {
                    Some(Ok(Variable::Bool(x))) => x,
                    Some(Ok(_)) => return None,
                    Some(Err(err)) => return Some(Err(err)),
                    None => return None,
                };
                let ghost s1 = state@;
                let saved = state.variables.len();
                let res = if x {
                    exec_all(a, state, fuel)
                } else {
                    exec_all(e, state, fuel)
                };
                match res {
                    Some(Ok(rs)) => {
                        state.variables.truncate(saved);
                        proof {
                            assert(state@ =~= s1);
                        }
                        Some(Ok(last_or_void_of(&rs)))
                    },
                    Some(Err(err)) => {
                        state.variables.truncate(saved);
                        proof {
                            assert(state@ =~= s1);
                        }
                        Some(Err(err))
                    },
                    None => None,
                }
            },
            _ => None,
        }
    }

    /// `[v; n]` (see `eval`).
    fn exec_repeat(&self, state: &mut Interpreter, fuel: u64) -> (r: Option<Result<Variable, ExecStop>>)
        requires
            self is ArrayRepeat,
        ensures
            outcome(r, final(state)@) == eval(self@, old(state)@, fuel as nat),
            r is Some ==> extends(final(state)@, old(state)@),
        decreases fuel, self, 0nat,
    {
        proof {
            lemma_extends_refl(state@);
        }
        match self {
            Instruction::ArrayRepeat(v, n) => {
                let ghost s0 = state@;
                let a = match (**v).exec(state, fuel) {
                    Some(Ok(a)) => a,
                    other => return other,
                };
                let ghost s1 = state@;
                let res = (**n).exec(state, fuel);
                proof {
                    if res is Some {
                        lemma_extends_trans(state@, s1, s0);
                    }
                }
                let k = match res {
                    Some(Ok(Variable::Int(k))) => k,
                    Some(Ok(_)) => return None,
                    Some(Err(e)) => return Some(Err(e)),
                    None => return None,
                };
                if k < 0 {
                    return Some(Err(ExecStop::Error(ExecError::NegativeLength)));
                }
                if (k as u64) > (usize::MAX as u64) {
                    return None;
                }
                match ArrayRepeat::exec(&a, k) {
                    Ok(r) => Some(Ok(r)),
                    Err(e) => Some(Err(ExecStop::Error(e))),
                }
            },
            _ => None,
        }
    }

    /// Runs this instruction on the variables of `state`, with `fuel` for the
    /// depth of nested calls: its value or the error it stops with, the
    /// variables afterwards in `state` (see `eval`); `None` where `eval` is.
    #[verifier::rlimit(40)]
    pub fn exec(&self, state: &mut Interpreter, fuel: u64) -> (r: Option<Result<Variable, ExecStop>>)
        ensures
            outcome(r, final(state)@) == eval(self@, old(state)@, fuel as nat),
            r is Some ==> extends(final(state)@, old(state)@),
        decreases fuel, self, 1nat,
    {
        proof {
            lemma_extends_refl(state@);
        }
        match self {
            Instruction::Variable(v) => Some(Ok(v.clone())),
            Instruction::LocalVariable(n) => match state.get(n.as_str()) {
                Some(v) => Some(Ok(v)),
                None => None,
            },
            Instruction::Array(xs) => match exec_all(xs, state, fuel) {
                Some(Ok(vs)) => Some(Ok(Variable::Array(vs))),
                Some(Err(e)) => Some(Err(e)),
                None => None,
            },
            Instruction::ArrayRepeat(..) => self.exec_repeat(state, fuel),
            Instruction::Assign(n, x) => {
                let ghost s0 = state@;
                match (**x).exec(state, fuel) {
                    Some(Ok(v)) => {
                        let ghost s1 = state@;
                        state.insert(n.clone(), v.clone());
                        proof {
                            assert(state@.subrange(0, s1.len() as int) =~= s1);
                            lemma_extends_trans(state@, s1, s0);
                        }
                        Some(Ok(v))
                    },
                    other => other,
                }
            },
            Instruction::Function(ps, t, body) => {
                let mut bound = param_name_list(ps);
                let new_body = recreate_all(body, &mut bound, state);
                Some(Ok(Variable::Function(Function::new(ps.clone(), t.clone(), new_body))))
            },
            Instruction::Call(f, args) => {
                let ghost s0 = state@;
                let func = match (**f).exec(state, fuel) {
                    Some(Ok(Variable::Function(func))) => func,
                    Some(Ok(_)) => return None,
                    Some(Err(e)) => return Some(Err(e)),
                    None => return None,
                };
                let ghost s1 = state@;
                let vs = match exec_all(args, state, fuel) {
                    Some(Ok(vs)) => vs,
                    Some(Err(e)) => {
                        proof {
                            lemma_extends_trans(state@, s1, s0);
                        }
                        return Some(Err(e));
                    },
                    None => return None,
                };
                proof {
                    lemma_extends_trans(state@, s1, s0);
                    lemma_values(vs@);
                }
                if vs.len() != func.params.0.len() || fuel == 0 {
                    return None;
                }
                let ghost s2 = state@;
                let saved = state.variables.len();
                bind_params(state, &func.params, &vs);
                let ghost s3 = state@;
                proof {
                    assert(s3.subrange(0, s2.len() as int) =~= s2);
                }
                let res = exec_all(&func.body, state, fuel - 1);
                match res {
                    Some(Ok(rs)) => {
                        proof {
                            lemma_extends_trans(state@, s3, s2);
                        }
                        state.variables.truncate(saved);
                        proof {
                            assert(state@ =~= s2);
                        }
                        Some(Ok(last_or_void_of(&rs)))
                    },
                    Some(Err(ExecStop::Error(e))) => {
                        proof {
                            lemma_extends_trans(state@, s3, s2);
                        }
                        state.variables.truncate(saved);
                        proof {
                            assert(state@ =~= s2);
                        }
                        Some(Err(ExecStop::Error(e)))
                    },
                    _ => None,
                }
            },
            Instruction::Loop(body) => {
                if fuel == 0 {
                    return None;
                }
                let ghost s0 = state@;
                let res = exec_all(body, state, fuel - 1);
                match res {
                    Some(Ok(_)) => {},
                    Some(Err(ExecStop::Continue)) => {},
                    Some(Err(ExecStop::Break)) => return Some(Ok(Variable::Void)),
                    Some(Err(e)) => return Some(Err(e)),
                    None => return None,
                }
                let ghost s1 = state@;
                let r = self.exec(state, fuel - 1);
                proof {
                    if r is Some {
                        lemma_extends_trans(state@, s1, s0);
                    }
                }
                r
            },
            Instruction::Break => Some(Err(ExecStop::Break)),
            Instruction::Continue => Some(Err(ExecStop::Continue)),
            Instruction::BinOperation(b) => b.exec(state, fuel),
            Instruction::If(..) => self.exec_if(state, fuel),
        }
    }

}

impl BinOperation {
    /// `lhs op rhs`: the left operand first; `&&` and `||` run the right one
    /// only when the left one does not decide; `?` and `@` call the function
    /// on the right on each element of the array on the left, in order; the
    /// other operators apply to both values (see `apply_op`).
    pub fn exec(&self, state: &mut Interpreter, fuel: u64) -> (r: Option<Result<Variable, ExecStop>>)
        ensures
            outcome(r, final(state)@) == eval(self@, old(state)@, fuel as nat),
            r is Some ==> extends(final(state)@, old(state)@),
        decreases fuel, self, 0nat,
    {
        let lhs = &self.lhs;
        let op = &self.op;
        let rhs = &self.rhs;
        {
                let ghost s0 = state@;
                let a = match lhs.exec(state, fuel) {
                    Some(Ok(a)) => a,
                    Some(Err(e)) => return Some(Err(e)),
                    None => return None,
                };
                let ghost s1 = state@;
                if *op == BinOperator::And || *op == BinOperator::Or {
                    let x = match a {
                        Variable::Bool(x) => x,
                        _ => return None,
                    };
                    if (*op == BinOperator::And && !x) || (*op == BinOperator::Or && x) {
                        return Some(Ok(Variable::Bool(x)));
                    }
                    let res = rhs.exec(state, fuel);
                    proof {
                        if res is Some {
                            lemma_extends_trans(state@, s1, s0);
                        }
                    }
                    match res {
                        Some(Ok(Variable::Bool(y))) => Some(Ok(Variable::Bool(y))),
                        Some(Ok(_)) => None,
                        Some(Err(e)) => Some(Err(e)),
                        None => None,
                    }
                } else {
                    let b = match rhs.exec(state, fuel) {
                        Some(Ok(b)) => b,
                        Some(Err(e)) => {
                            proof {
                                lemma_extends_trans(state@, s1, s0);
                            }
                            return Some(Err(e));
                        },
                        None => return None,
                    };
                    proof {
                        lemma_extends_trans(state@, s1, s0);
                    }
                    if *op == BinOperator::Filter || *op == BinOperator::MapOp {
                        let (xs, func) = match (a, b) {
                            (Variable::Array(xs), Variable::Function(func)) => (xs, func),
                            _ => return None,
                        };
                        if fuel == 0 {
                            return None;
                        }
                        proof {
                            lemma_values(xs@);
                        }
                        let ghost s2 = state@;
                        return match exec_each(&func, &xs, state, fuel - 1) {
                            Some(Ok(rs)) => {
                                proof {
                                    lemma_values(rs@);
                                    lemma_eval_each_len(func@, values(xs@), 0, s2, (fuel - 1) as nat);
                                }
                                if *op == BinOperator::Filter {
                                    Some(Ok(Variable::Array(keep(&xs, &rs))))
                                } else {
                                    Some(Ok(Variable::Array(rs)))
                                }
                            },
                            Some(Err(e)) => Some(Err(e)),
                            None => None,
                        };
                    }
                    match apply_operator(*op, a, b) {
                        Some(Ok(v)) => Some(Ok(v)),
                        Some(Err(e)) => Some(Err(ExecStop::Error(e))),
                        None => None,
                    }
                }
        }
    }
}

} // verus!
