use crate::bin_operator::BinOperator;
use crate::errors::exec_error::ExecError;
use crate::instruction::exec_stop::ExecStop;
use crate::function::function::FunctionView;
use crate::function::param::ParamView;
use crate::instruction::add::{add_defined, add_value};
use crate::instruction::array_ops::filter::kept;
use crate::instruction::at::at;
use crate::instruction::bin::bin_or::{or_defined, or_value};
use crate::instruction::bin::rshift::shift_in_range;
use crate::interpreter::arith::{arith_op, int_op, is_int_operator};
use crate::interpreter::instruction::InstrView;
use crate::variable::value::{value_eq, Value};
use vstd::prelude::*;

verus! {

/// The variables of a running script, in the order they were set; a later
/// binding of a name hides an earlier one.
pub type StateView = Seq<(Seq<char>, Value)>;

/// The value bound last to `name`.
pub open spec fn lookup(st: StateView, name: Seq<char>) -> Option<Value>
    decreases st.len(),
{
    if st.len() == 0 {
        None
    } else if st[st.len() - 1].0 == name {
        Some(st[st.len() - 1].1)
    } else {
        lookup(st.subrange(0, st.len() - 1), name)
    }
}

/// The names of parameters.
pub open spec fn param_names(ps: Seq<ParamView>) -> Seq<Seq<char>> {
    Seq::new(ps.len(), |i: int| ps[i].name)
}

/// `st` with each parameter bound to the argument at its position.
pub open spec fn bind(st: StateView, ps: Seq<ParamView>, args: Seq<Value>) -> StateView {
    st + Seq::new(ps.len(), |i: int| (ps[i].name, args[i]))
}

/// The value of a block: that of its last instruction, `()` when it is empty.
pub open spec fn last_or_void(vs: Seq<Value>) -> Value {
    if vs.len() == 0 {
        Value::Void
    } else {
        vs[vs.len() - 1]
    }
}

/// `i` with every variable that is neither in `bound` nor set before it by
/// the instruction replaced by its value in `st`, when `st` has one; the
/// names set by `i` are added to `bound`; an array literal or an operation
/// whose parts have all become values is folded (see `fold_array`,
/// `fold_op`). This is how a function literal captures, by value, the
/// variables it reads.
pub open spec fn subst(i: InstrView, bound: Seq<Seq<char>>, st: StateView) -> (InstrView, Seq<Seq<char>>)
    decreases i,
{
    match i {
        InstrView::Variable(_) => (i, bound),
        InstrView::LocalVariable(n) => if bound.contains(n) {
            (i, bound)
        } else {
            match lookup(st, n) {
                Some(v) => (InstrView::Variable(v), bound),
                None => (i, bound),
            }
        },
        InstrView::Array(xs) => {
            let (ys, b) = subst_all(xs, bound, st);
            (fold_array(ys), b)
        },
        InstrView::ArrayRepeat(v, n) => {
            let (v2, b1) = subst(*v, bound, st);
            let (n2, b2) = subst(*n, b1, st);
            (InstrView::ArrayRepeat(Box::new(v2), Box::new(n2)), b2)
        },
        InstrView::Assign(n, x) => {
            let (y, b) = subst(*x, bound, st);
            (InstrView::Assign(n, Box::new(y)), b.push(n))
        },
        InstrView::Call(f, xs) => {
            let (g, b1) = subst(*f, bound, st);
            let (ys, b2) = subst_all(xs, b1, st);
            (InstrView::Call(Box::new(g), ys), b2)
        },
        InstrView::Function(ps, t, body) => (
            InstrView::Function(ps, t, subst_all(body, bound + param_names(ps), st).0),
            bound,
        ),
        InstrView::BinOperation(l, op, r) => {
            let (l2, b1) = subst(*l, bound, st);
            let (r2, b2) = subst(*r, b1, st);
            (fold_op(l2, op, r2), b2)
        },
        InstrView::Loop(body) => {
            let (ys, b) = subst_all(body, bound, st);
            (InstrView::Loop(ys), b)
        },
        InstrView::If(c, a, e) => {
            let (c2, b1) = subst(*c, bound, st);
            (InstrView::If(Box::new(c2), subst_all(a, b1, st).0, subst_all(e, b1, st).0), b1)
        },
        InstrView::Break => (i, bound),
        InstrView::Continue => (i, bound),
    }
}

/// The values of instructions that are all values known in advance.
pub open spec fn known_values(xs: Seq<InstrView>) -> Option<Seq<Value>>
    decreases xs.len(),
{
    if xs.len() == 0 {
        Some(Seq::empty())
    } else {
        match xs[0] {
            InstrView::Variable(v) => match known_values(xs.subrange(1, xs.len() as int)) {
                Some(vs) => Some(seq![v] + vs),
                None => None,
            },
            _ => None,
        }
    }
}

/// An array literal whose elements are all known values is that array.
pub open spec fn fold_array(xs: Seq<InstrView>) -> InstrView {
    match known_values(xs) {
        Some(vs) => InstrView::Variable(Value::Array(vs)),
        None => InstrView::Array(xs),
    }
}

/// The operators that `fold_op` folds: those that only compute on the values
/// of both operands.
pub open spec fn folds(op: BinOperator) -> bool {
    op != BinOperator::And && op != BinOperator::Or && op != BinOperator::Filter && op
        != BinOperator::MapOp
}

/// An operation on two known values is its value, where it has one; an
/// operation that would stop with an error stays, to stop when it runs.
pub open spec fn fold_op(l: InstrView, op: BinOperator, r: InstrView) -> InstrView {
    match (l, r) {
        (InstrView::Variable(a), InstrView::Variable(b)) => if folds(op) {
            match apply_op(op, a, b) {
                Some(Ok(v)) => InstrView::Variable(v),
                _ => InstrView::BinOperation(Box::new(l), op, Box::new(r)),
            }
        } else {
            InstrView::BinOperation(Box::new(l), op, Box::new(r))
        },
        _ => InstrView::BinOperation(Box::new(l), op, Box::new(r)),
    }
}

/// [`subst`] of each instruction, from the first.
pub open spec fn subst_all(xs: Seq<InstrView>, bound: Seq<Seq<char>>, st: StateView) -> (Seq<InstrView>, Seq<Seq<char>>)
    decreases xs,
{
    if xs.len() == 0 {
        (Seq::empty(), bound)
    } else {
        let (y, b1) = subst(xs[0], bound, st);
        let (ys, b2) = subst_all(xs.subrange(1, xs.len() as int), b1, st);
        (seq![y] + ys, b2)
    }
}

/// The value of `lhs op rhs` for the values of its operands, for the
/// operators other than `&&`, `||`, `?` and `@`: `None` where the operation
/// does not apply to them (floats among them: their arithmetic is not part of
/// this library) or where an integer result does not fit in an `i64`.
pub open spec fn apply_op(op: BinOperator, lhs: Value, rhs: Value) -> Option<Result<Value, ExecError>> {
    match op {
        BinOperator::Add => if add_defined(lhs, rhs) {
            Some(Ok(add_value(lhs, rhs)))
        } else {
            None
        },
        BinOperator::Equal => Some(Ok(Value::Bool(value_eq(lhs, rhs)))),
        BinOperator::NotEqual => Some(Ok(Value::Bool(!value_eq(lhs, rhs)))),
        BinOperator::BitwiseOr => if or_defined(lhs, rhs) {
            Some(Ok(or_value(lhs, rhs)))
        } else {
            None
        },
        BinOperator::RShift => match (lhs, rhs) {
            (_, Value::Int(b)) if !shift_in_range(b) => Some(Err(ExecError::OverflowShift)),
            (Value::Int(a), Value::Int(b)) => Some(Ok(Value::Int(a >> (b as u64)))),
            _ => None,
        },
        BinOperator::At => match rhs {
            Value::Int(b) => if lhs is String || lhs is Array {
                Some(at(lhs, b as int))
            } else {
                None
            },
            _ => None,
        },
        _ => if is_int_operator(op) {
            arith_op(op, lhs, rhs)
        } else {
            None
        },
    }
}

/// What running `i` on the variables `st` gives: its value or why it stopped
/// (an error, a `break`, a `continue`), and the variables afterwards. A call
/// and a round of a loop use one unit of `fuel`; an `if` runs one of its
/// blocks, whose variables do not outlive it; `None` when the fuel runs
/// out or when the instruction cannot run (a variable that is not set, a call
/// of something that is not a function or with another number of arguments
/// than parameters, a `break` or `continue` that leaves a function, an
/// operator on operands it does not apply to).
pub open spec fn eval(i: InstrView, st: StateView, fuel: nat) -> Option<(Result<Value, ExecStop>, StateView)>
    decreases fuel, i,
{
    match i {
        InstrView::Variable(v) => Some((Ok(v), st)),
        InstrView::LocalVariable(n) => match lookup(st, n) {
            Some(v) => Some((Ok(v), st)),
            None => None,
        },
        InstrView::Array(xs) => match eval_all(xs, st, fuel) {
            Some((Ok(vs), st2)) => Some((Ok(Value::Array(vs)), st2)),
            Some((Err(e), st2)) => Some((Err(e), st2)),
            None => None,
        },
        InstrView::ArrayRepeat(v, n) => match eval(*v, st, fuel) {
            Some((Ok(a), st1)) => match eval(*n, st1, fuel) {
                Some((Ok(Value::Int(k)), st2)) => if k < 0 {
                    Some((Err(ExecStop::Error(ExecError::NegativeLength)), st2))
                } else if k > usize::MAX {
                    None
                } else {
                    Some((Ok(Value::Array(Seq::new(k as nat, |_j: int| a))), st2))
                },
                Some((Ok(_), _)) => None,
                other => other,
            },
            other => other,
        },
        InstrView::Assign(n, x) => match eval(*x, st, fuel) {
            Some((Ok(v), st2)) => Some((Ok(v), st2.push((n, v)))),
            other => other,
        },
        InstrView::Function(ps, t, body) => Some(
            (
                Ok(
                    Value::Function(
                        FunctionView {
                            ident: None,
                            params: ps,
                            return_type: t,
                            body: subst_all(body, param_names(ps), st).0,
                        },
                    ),
                ),
                st,
            ),
        ),
        InstrView::Call(f, args) => match eval(*f, st, fuel) {
            Some((Ok(Value::Function(fv)), st1)) => match eval_all(args, st1, fuel) {
                Some((Ok(vs), st2)) => if vs.len() != fv.params.len() || fuel == 0 {
                    None
                } else {
                    match eval_all(fv.body, bind(st2, fv.params, vs), (fuel - 1) as nat) {
                        Some((Ok(rs), _)) => Some((Ok(last_or_void(rs)), st2)),
                        Some((Err(ExecStop::Error(e)), _)) => Some((Err(ExecStop::Error(e)), st2)),
                        _ => None,
                    }
                },
                Some((Err(e), st2)) => Some((Err(e), st2)),
                None => None,
            },
            Some((Ok(_), _)) => None,
            other => other,
        },
        InstrView::BinOperation(l, op, r) => match eval(*l, st, fuel) {
            Some((Ok(a), st1)) => if op == BinOperator::And || op == BinOperator::Or {
                match a {
                    Value::Bool(x) => if (op == BinOperator::And && !x) || (op == BinOperator::Or
                        && x) {
                        Some((Ok(Value::Bool(x)), st1))
                    } else {
                        match eval(*r, st1, fuel) {
                            Some((Ok(Value::Bool(y)), st2)) => Some((Ok(Value::Bool(y)), st2)),
                            Some((Ok(_), _)) => None,
                            other => other,
                        }
                    },
                    _ => None,
                }
            } else if op == BinOperator::Filter || op == BinOperator::MapOp {
                match eval(*r, st1, fuel) {
                    Some((Ok(b), st2)) => match (a, b) {
                        (Value::Array(xs), Value::Function(fv)) => if fuel == 0 {
                            None
                        } else {
                            match eval_each(fv, xs, 0, st2, (fuel - 1) as nat) {
                                Some(Ok(rs)) => Some(
                                    (
                                        Ok(
                                            if op == BinOperator::Filter {
                                                Value::Array(kept(xs, rs))
                                            } else {
                                                Value::Array(rs)
                                            },
                                        ),
                                        st2,
                                    ),
                                ),
                                Some(Err(e)) => Some((Err(e), st2)),
                                None => None,
                            }
                        },
                        _ => None,
                    },
                    other => other,
                }
            } else {
                match eval(*r, st1, fuel) {
                    Some((Ok(b), st2)) => match apply_op(op, a, b) {
                        Some(res) => Some((lift(res), st2)),
                        None => None,
                    },
                    other => other,
                }
            },
            other => other,
        },
        InstrView::Loop(body) => if fuel == 0 {
            None
        } else {
            match eval_all(body, st, (fuel - 1) as nat) {
                Some((Ok(_), st1)) => eval(i, st1, (fuel - 1) as nat),
                Some((Err(ExecStop::Continue), st1)) => eval(i, st1, (fuel - 1) as nat),
                Some((Err(ExecStop::Break), st1)) => Some((Ok(Value::Void), st1)),
                Some((Err(e), st1)) => Some((Err(e), st1)),
                None => None,
            }
        },
        InstrView::If(c, a, e) => match eval(*c, st, fuel) {
            Some((Ok(Value::Bool(x)), st1)) => block_result(
                if x {
                    eval_all(a, st1, fuel)
                } else {
                    eval_all(e, st1, fuel)
                },
                st1,
            ),
            Some((Ok(_), _)) => None,
            other => other,
        },
        InstrView::Break => Some((Err(ExecStop::Break), st)),
        InstrView::Continue => Some((Err(ExecStop::Continue), st)),
    }
}

/// The arguments with which `?` and `@` call a function of `n` parameters
/// for the element `x` at position `index`: the element, or its index and
/// the element.
pub open spec fn each_args(n: nat, index: int, x: Value) -> Seq<Value> {
    if n == 1 {
        seq![x]
    } else {
        seq![Value::Int(index as i64), x]
    }
}

/// The results of calling the function `fv` on each element of `xs`, whose
/// first stands at position `start`, on the variables `st`, from the first;
/// or the first error. Each call uses one unit of `fuel`.
pub open spec fn eval_each(fv: FunctionView, xs: Seq<Value>, start: int, st: StateView, fuel: nat) -> Option<
    Result<Seq<Value>, ExecStop>,
>
    decreases fuel, xs,
{
    if xs.len() == 0 {
        Some(Ok(Seq::empty()))
    } else if fuel == 0 {
        None
    } else {
        let args = each_args(fv.params.len(), start, xs[0]);
        if args.len() != fv.params.len() {
            None
        } else {
            match eval_all(fv.body, bind(st, fv.params, args), (fuel - 1) as nat) {
                Some((Ok(rs), _)) => match eval_each(
                    fv,
                    xs.subrange(1, xs.len() as int),
                    start + 1,
                    st,
                    fuel,
                ) {
                    Some(Ok(ys)) => Some(Ok(seq![last_or_void(rs)] + ys)),
                    other => other,
                },
                Some((Err(ExecStop::Error(e)), _)) => Some(Err(ExecStop::Error(e))),
                _ => None,
            }
        }
    }
}

/// Calling a function on each element gives as many results as elements.
pub proof fn lemma_eval_each_len(fv: FunctionView, xs: Seq<Value>, start: int, st: StateView, fuel: nat)
    ensures
        eval_each(fv, xs, start, st, fuel) matches Some(Ok(rs)) ==> rs.len() == xs.len(),
    decreases xs.len(),
{
    if xs.len() > 0 {
        lemma_eval_each_len(fv, xs.subrange(1, xs.len() as int), start + 1, st, fuel);
    }
}

/// More fuel changes nothing in a run that finished with less: fuel only
/// bounds how deep calls and loops may go.
pub proof fn lemma_eval_fuel(i: InstrView, st: StateView, f: nat, g: nat)
    requires
        f <= g,
    ensures
        eval(i, st, f) is Some ==> eval(i, st, g) == eval(i, st, f),
    decreases f, i,
{
    match i {
        InstrView::Array(xs) => lemma_eval_all_fuel(xs, st, f, g),
        InstrView::Assign(n, x) => lemma_eval_fuel(*x, st, f, g),
        InstrView::ArrayRepeat(v, n) => {
            lemma_eval_fuel(*v, st, f, g);
            if let Some((Ok(a), st1)) = eval(*v, st, f) {
                lemma_eval_fuel(*n, st1, f, g);
            }
        },
        InstrView::Call(fx, args) => {
            lemma_eval_fuel(*fx, st, f, g);
            if let Some((Ok(Value::Function(fv)), st1)) = eval(*fx, st, f) {
                lemma_eval_all_fuel(args, st1, f, g);
                if let Some((Ok(vs), st2)) = eval_all(args, st1, f) {
                    if vs.len() == fv.params.len() && f != 0 {
                        lemma_eval_all_fuel(
                            fv.body,
                            bind(st2, fv.params, vs),
                            (f - 1) as nat,
                            (g - 1) as nat,
                        );
                    }
                }
            }
        },
        InstrView::BinOperation(l, op, r) => {
            lemma_eval_fuel(*l, st, f, g);
            if let Some((Ok(a), st1)) = eval(*l, st, f) {
                lemma_eval_fuel(*r, st1, f, g);
                if let Some((Ok(b), st2)) = eval(*r, st1, f) {
                    if let (Value::Array(xs), Value::Function(fv)) = (a, b) {
                        if f != 0 {
                            lemma_eval_each_fuel(fv, xs, 0, st2, (f - 1) as nat, (g - 1) as nat);
                        }
                    }
                }
            }
        },
        InstrView::If(c, a, e) => {
            lemma_eval_fuel(*c, st, f, g);
            if let Some((Ok(Value::Bool(x)), st1)) = eval(*c, st, f) {
                if x {
                    lemma_eval_all_fuel(a, st1, f, g);
                } else {
                    lemma_eval_all_fuel(e, st1, f, g);
                }
            }
        },
        InstrView::Loop(body) => {
            if f != 0 {
                lemma_eval_all_fuel(body, st, (f - 1) as nat, (g - 1) as nat);
                if let Some((_, st1)) = eval_all(body, st, (f - 1) as nat) {
                    lemma_eval_fuel(i, st1, (f - 1) as nat, (g - 1) as nat);
                }
            }
        },
        _ => {},
    }
}

/// [`lemma_eval_fuel`] for a sequence of instructions.
pub proof fn lemma_eval_all_fuel(xs: Seq<InstrView>, st: StateView, f: nat, g: nat)
    requires
        f <= g,
    ensures
        eval_all(xs, st, f) is Some ==> eval_all(xs, st, g) == eval_all(xs, st, f),
    decreases f, xs,
{
    if xs.len() > 0 {
        lemma_eval_fuel(xs[0], st, f, g);
        if let Some((Ok(v), st1)) = eval(xs[0], st, f) {
            lemma_eval_all_fuel(xs.subrange(1, xs.len() as int), st1, f, g);
        }
    }
}

/// [`lemma_eval_fuel`] for the calls of a function on each element.
pub proof fn lemma_eval_each_fuel(
    fv: FunctionView,
    xs: Seq<Value>,
    start: int,
    st: StateView,
    f: nat,
    g: nat,
)
    requires
        f <= g,
    ensures
        eval_each(fv, xs, start, st, f) is Some ==> eval_each(fv, xs, start, st, g) == eval_each(
            fv,
            xs,
            start,
            st,
            f,
        ),
    decreases f, xs,
{
    if xs.len() > 0 && f != 0 {
        let args = each_args(fv.params.len(), start, xs[0]);
        lemma_eval_all_fuel(fv.body, bind(st, fv.params, args), (f - 1) as nat, (g - 1) as nat);
        lemma_eval_each_fuel(fv, xs.subrange(1, xs.len() as int), start + 1, st, f, g);
    }
}

/// What a block that ran to `r` gives: the value of its last instruction or
/// why it stopped, with the variables `st` of before it, since its own do not
/// outlive it.
pub open spec fn block_result(
    r: Option<(Result<Seq<Value>, ExecStop>, StateView)>,
    st: StateView,
) -> Option<(Result<Value, ExecStop>, StateView)> {
    match r {
        Some((Ok(vs), _)) => Some((Ok(last_or_void(vs)), st)),
        Some((Err(err), _)) => Some((Err(err), st)),
        None => None,
    }
}

/// `l || r` and `l && r` on booleans: the left operand runs first, then the
/// right one where the left one does not decide, and the value is the
/// logical or, the logical and, of the two.
pub proof fn lemma_eval_or_and(
    l: InstrView,
    r: InstrView,
    st: StateView,
    fuel: nat,
    x: bool,
    st1: StateView,
    y: bool,
    st2: StateView,
)
    requires
        eval(l, st, fuel) == Some((Ok::<Value, ExecStop>(Value::Bool(x)), st1)),
        eval(r, st1, fuel) == Some((Ok::<Value, ExecStop>(Value::Bool(y)), st2)),
    ensures
        eval(InstrView::BinOperation(Box::new(l), BinOperator::Or, Box::new(r)), st, fuel) == Some(
            (Ok::<Value, ExecStop>(Value::Bool(x || y)), if x {
                st1
            } else {
                st2
            }),
        ),
        eval(InstrView::BinOperation(Box::new(l), BinOperator::And, Box::new(r)), st, fuel)
            == Some(
            (Ok::<Value, ExecStop>(Value::Bool(x && y)), if x {
                st2
            } else {
                st1
            }),
        ),
{
}

/// The right operand of `||` does not run when the left one is `true`, nor
/// that of `&&` when the left one is `false`: the left one decides.
pub proof fn lemma_eval_short_circuit(l: InstrView, r: InstrView, st: StateView, fuel: nat, x: bool, st1: StateView)
    requires
        eval(l, st, fuel) == Some((Ok::<Value, ExecStop>(Value::Bool(x)), st1)),
    ensures
        x ==> eval(InstrView::BinOperation(Box::new(l), BinOperator::Or, Box::new(r)), st, fuel)
            == Some((Ok::<Value, ExecStop>(Value::Bool(true)), st1)),
        !x ==> eval(InstrView::BinOperation(Box::new(l), BinOperator::And, Box::new(r)), st, fuel)
            == Some((Ok::<Value, ExecStop>(Value::Bool(false)), st1)),
{
}

/// `==` and `!=` compare values and are the negation of each other; `+`
/// adds integers (where the sum fits) and joins strings; `|` on integers
/// is commutative with `0` neutral; a shift outside `0..=63` is an error;
/// the other integer operators are those of `int_op`.
pub proof fn lemma_apply_op(op: BinOperator, a: Value, b: Value, x: i64, y: i64, s: Seq<char>, t: Seq<char>)
    ensures
        apply_op(BinOperator::Equal, a, b) == Some(
            Ok::<Value, ExecError>(Value::Bool(value_eq(a, b))),
        ),
        apply_op(BinOperator::NotEqual, a, b) == Some(
            Ok::<Value, ExecError>(Value::Bool(!value_eq(a, b))),
        ),
        i64::MIN <= x + y <= i64::MAX ==> apply_op(BinOperator::Add, Value::Int(x), Value::Int(y))
            == Some(Ok::<Value, ExecError>(Value::Int((x + y) as i64))),
        !(i64::MIN <= x + y <= i64::MAX) ==> apply_op(
            BinOperator::Add,
            Value::Int(x),
            Value::Int(y),
        ) is None,
        apply_op(BinOperator::Add, Value::String(s), Value::String(t)) == Some(
            Ok::<Value, ExecError>(Value::String(s + t)),
        ),
        apply_op(BinOperator::BitwiseOr, Value::Int(x), Value::Int(y)) == apply_op(
            BinOperator::BitwiseOr,
            Value::Int(y),
            Value::Int(x),
        ),
        apply_op(BinOperator::BitwiseOr, Value::Int(x), Value::Int(0)) == Some(
            Ok::<Value, ExecError>(Value::Int(x)),
        ),
        !(0 <= y <= 63) ==> apply_op(BinOperator::RShift, Value::Int(x), Value::Int(y)) == Some(
            Err::<Value, ExecError>(ExecError::OverflowShift),
        ),
        apply_op(BinOperator::RShift, Value::Int(x), Value::Int(0)) == Some(
            Ok::<Value, ExecError>(Value::Int(x)),
        ),
        is_int_operator(op) ==> apply_op(op, Value::Int(x), Value::Int(y)) == int_op(op, x, y),
{
    assert(x | y == y | x) by (bit_vector);
    assert(x | 0 == x) by (bit_vector);
    assert(x >> 0u64 == x) by (bit_vector);
}

/// An operation on two values, for an operator that only computes, gives
/// what the operator gives on them and changes no variable.
pub proof fn lemma_eval_operation(a: Value, op: BinOperator, b: Value, st: StateView, fuel: nat)
    requires
        folds(op),
    ensures
        eval(
            InstrView::BinOperation(
                Box::new(InstrView::Variable(a)),
                op,
                Box::new(InstrView::Variable(b)),
            ),
            st,
            fuel,
        ) == match apply_op(op, a, b) {
            Some(res) => Some((lift(res), st)),
            None => None,
        },
{
    assert(eval(InstrView::Variable(a), st, fuel) == Some((Ok::<Value, ExecStop>(a), st)));
    assert(eval(InstrView::Variable(b), st, fuel) == Some((Ok::<Value, ExecStop>(b), st)));
}

/// An `if` on a known condition runs the block it names: swapping the blocks
/// and negating the condition changes nothing, and the variables set in the
/// block do not outlive it.
pub proof fn lemma_eval_if(x: bool, a: Seq<InstrView>, e: Seq<InstrView>, st: StateView, fuel: nat)
    ensures
        eval(InstrView::If(Box::new(InstrView::Variable(Value::Bool(x))), a, e), st, fuel) == eval(
            InstrView::If(Box::new(InstrView::Variable(Value::Bool(!x))), e, a),
            st,
            fuel,
        ),
        eval(InstrView::If(Box::new(InstrView::Variable(Value::Bool(x))), a, e), st, fuel) matches Some(
            (_, s),
        ) ==> s == st,
{
    assert(eval(InstrView::Variable(Value::Bool(x)), st, fuel) == Some(
        (Ok::<Value, ExecStop>(Value::Bool(x)), st),
    ));
    assert(eval(InstrView::Variable(Value::Bool(!x)), st, fuel) == Some(
        (Ok::<Value, ExecStop>(Value::Bool(!x)), st),
    ));
}

/// After `name = value`, reading `name` gives the value.
pub proof fn lemma_eval_assign(n: Seq<char>, x: InstrView, st: StateView, fuel: nat)
    ensures
        eval(InstrView::Assign(n, Box::new(x)), st, fuel) matches Some((Ok(v), s)) ==> lookup(s, n)
            == Some(v),
{
}

/// `[value; len]` with a negative length is an error; otherwise it gives an
/// array of `len` elements, each of them the value.
pub proof fn lemma_eval_repeat(a: Value, k: i64, st: StateView, fuel: nat)
    ensures
        k < 0 ==> eval(
            InstrView::ArrayRepeat(
                Box::new(InstrView::Variable(a)),
                Box::new(InstrView::Variable(Value::Int(k))),
            ),
            st,
            fuel,
        ) == Some((Err::<Value, ExecStop>(ExecStop::Error(ExecError::NegativeLength)), st)),
        0 <= k <= usize::MAX ==> (eval(
            InstrView::ArrayRepeat(
                Box::new(InstrView::Variable(a)),
                Box::new(InstrView::Variable(Value::Int(k))),
            ),
            st,
            fuel,
        ) matches Some((Ok(Value::Array(xs)), s)) && s == st && xs.len() == k && forall|i: int|
            0 <= i < k ==> #[trigger] xs[i] == a),
{
    assert(eval(InstrView::Variable(a), st, fuel) == Some((Ok::<Value, ExecStop>(a), st)));
    assert(eval(InstrView::Variable(Value::Int(k)), st, fuel) == Some(
        (Ok::<Value, ExecStop>(Value::Int(k)), st),
    ));
}

/// The variable set last wins: after binding `n` to `v`, reading `n` gives
/// `v`, and reading another name gives what it gave before.
pub proof fn lemma_lookup_push(st: StateView, n: Seq<char>, m: Seq<char>, v: Value)
    ensures
        lookup(st.push((n, v)), n) == Some(v),
        m != n ==> lookup(st.push((n, v)), m) == lookup(st, m),
{
    assert(st.push((n, v)).subrange(0, st.len() as int) =~= st);
}

/// Calling a function on each element of a concatenation calls it on each
/// element of the first part, then of the second (whose positions follow
/// those of the first), and joins the results in order; the first part's
/// failure comes first.
pub proof fn lemma_eval_each_concat(
    fv: FunctionView,
    xs1: Seq<Value>,
    xs2: Seq<Value>,
    start: int,
    st: StateView,
    fuel: nat,
)
    ensures
        eval_each(fv, xs1 + xs2, start, st, fuel) == match eval_each(fv, xs1, start, st, fuel) {
            Some(Ok(a)) => match eval_each(fv, xs2, start + xs1.len(), st, fuel) {
                Some(Ok(b)) => Some(Ok(a + b)),
                other => other,
            },
            other => other,
        },
    decreases xs1.len(),
{
    if xs1.len() == 0 {
        assert(xs1 + xs2 =~= xs2);
        if let Some(Ok(b)) = eval_each(fv, xs2, start, st, fuel) {
            assert(Seq::<Value>::empty() + b =~= b);
        }
    } else {
        let xs = xs1 + xs2;
        let r1 = xs1.subrange(1, xs1.len() as int);
        assert(xs[0] == xs1[0]);
        assert(xs.subrange(1, xs.len() as int) =~= r1 + xs2);
        lemma_eval_each_concat(fv, r1, xs2, start + 1, st, fuel);
        assert(start + 1 + r1.len() == start + xs1.len());
        if let Some(Ok(a)) = eval_each(fv, r1, start + 1, st, fuel) {
            if let Some(Ok(b)) = eval_each(fv, xs2, start + xs1.len(), st, fuel) {
                let c = eval_each(fv, xs1, start, st, fuel);
                if let Some(Ok(h)) = c {
                    assert(h.len() >= 1);
                    assert(h + b =~= seq![h[0]] + (a + b)) by {
                        assert(h =~= seq![h[0]] + a);
                    }
                }
            }
        }
    }
}

/// `loop { break }` stops at once with `()`, and a call of a function on
/// known arguments leaves the caller's variables as they were.
pub proof fn lemma_eval_loop_call(fv: FunctionView, args: Seq<Value>, st: StateView, fuel: nat)
    ensures
        fuel > 0 ==> eval(InstrView::Loop(seq![InstrView::Break]), st, fuel) == Some(
            (Ok::<Value, ExecStop>(Value::Void), st),
        ),
        eval(
            InstrView::Call(
                Box::new(InstrView::Variable(Value::Function(fv))),
                Seq::new(args.len(), |i: int| InstrView::Variable(args[i])),
            ),
            st,
            fuel,
        ) matches Some((_, s)) ==> s == st,
{
    let body = seq![InstrView::Break];
    if fuel > 0 {
        assert(body.subrange(1, 1) =~= Seq::<InstrView>::empty());
        assert(eval(InstrView::Break, st, (fuel - 1) as nat) == Some(
            (Err::<Value, ExecStop>(ExecStop::Break), st),
        ));
        assert(eval_all(body, st, (fuel - 1) as nat) == Some(
            (Err::<Seq<Value>, ExecStop>(ExecStop::Break), st),
        ));
    }
    let xs = Seq::new(args.len(), |i: int| InstrView::Variable(args[i]));
    lemma_variables_run(args, st, fuel);
    assert(eval(InstrView::Variable(Value::Function(fv)), st, fuel) == Some(
        (Ok::<Value, ExecStop>(Value::Function(fv)), st),
    ));
}

proof fn lemma_variables_run(args: Seq<Value>, st: StateView, fuel: nat)
    ensures
        eval_all(Seq::new(args.len(), |i: int| InstrView::Variable(args[i])), st, fuel) == Some(
            (Ok::<Seq<Value>, ExecStop>(args), st),
        ),
    decreases args.len(),
{
    let xs = Seq::new(args.len(), |i: int| InstrView::Variable(args[i]));
    if args.len() > 0 {
        let rest = args.subrange(1, args.len() as int);
        lemma_variables_run(rest, st, fuel);
        assert(xs.subrange(1, xs.len() as int) =~= Seq::new(
            rest.len(),
            |i: int| InstrView::Variable(rest[i]),
        ));
        assert(eval(xs[0], st, fuel) == Some((Ok::<Value, ExecStop>(args[0]), st)));
        assert(seq![args[0]] + rest =~= args);
    } else {
        assert(args =~= Seq::<Value>::empty());
    }
}

/// An operator's error as a reason to stop.
pub open spec fn lift(r: Result<Value, ExecError>) -> Result<Value, ExecStop> {
    match r {
        Ok(v) => Ok(v),
        Err(e) => Err(ExecStop::Error(e)),
    }
}

/// Runs the instructions `xs` from the first: their values, or the first
/// error, with the variables afterwards.
pub open spec fn eval_all(xs: Seq<InstrView>, st: StateView, fuel: nat) -> Option<(Result<Seq<Value>, ExecStop>, StateView)>
    decreases fuel, xs,
{
    if xs.len() == 0 {
        Some((Ok(Seq::empty()), st))
    } else {
        match eval(xs[0], st, fuel) {
            Some((Ok(v), st1)) => match eval_all(xs.subrange(1, xs.len() as int), st1, fuel) {
                Some((Ok(vs), st2)) => Some((Ok(seq![v] + vs), st2)),
                Some((Err(e), st2)) => Some((Err(e), st2)),
                None => None,
            },
            Some((Err(e), st1)) => Some((Err(e), st1)),
            None => None,
        }
    }
}

/// Whether `i` reads, apart from the names in `bound` and those it sets before
/// reading them, only variables that `st` does not hold; with the names in
/// `bound` and those `i` sets.
pub open spec fn closed(i: InstrView, bound: Seq<Seq<char>>, st: StateView) -> (bool, Seq<Seq<char>>)
    decreases i,
{
    match i {
        InstrView::Variable(_) => (true, bound),
        InstrView::LocalVariable(n) => (bound.contains(n) || lookup(st, n) is None, bound),
        InstrView::Array(xs) => closed_all(xs, bound, st),
        InstrView::ArrayRepeat(v, n) => {
            let (c1, b1) = closed(*v, bound, st);
            let (c2, b2) = closed(*n, b1, st);
            (c1 && c2, b2)
        },
        InstrView::Assign(n, x) => {
            let (c, b) = closed(*x, bound, st);
            (c, b.push(n))
        },
        InstrView::Call(f, xs) => {
            let (c1, b1) = closed(*f, bound, st);
            let (c2, b2) = closed_all(xs, b1, st);
            (c1 && c2, b2)
        },
        InstrView::Function(ps, _, body) => (closed_all(body, bound + param_names(ps), st).0, bound),
        InstrView::BinOperation(l, _, r) => {
            let (c1, b1) = closed(*l, bound, st);
            let (c2, b2) = closed(*r, b1, st);
            (c1 && c2, b2)
        },
        InstrView::Loop(body) => closed_all(body, bound, st),
        InstrView::If(c, a, e) => {
            let (c1, b1) = closed(*c, bound, st);
            (c1 && closed_all(a, b1, st).0 && closed_all(e, b1, st).0, b1)
        },
        InstrView::Break => (true, bound),
        InstrView::Continue => (true, bound),
    }
}

pub open spec fn closed_all(xs: Seq<InstrView>, bound: Seq<Seq<char>>, st: StateView) -> (bool, Seq<Seq<char>>)
    decreases xs,
{
    if xs.len() == 0 {
        (true, bound)
    } else {
        let (c1, b1) = closed(xs[0], bound, st);
        let (c2, b2) = closed_all(xs.subrange(1, xs.len() as int), b1, st);
        (c1 && c2, b2)
    }
}

/// What [`subst`] gives reads no variable of `st` outside `bound`, and sets
/// the same names.
pub proof fn lemma_subst_closed(i: InstrView, bound: Seq<Seq<char>>, st: StateView)
    ensures
        closed(subst(i, bound, st).0, bound, st) == (true, subst(i, bound, st).1),
    decreases i,
{
    lemma_subst_known(i, bound, st);
    match i {
        InstrView::Array(xs) => lemma_subst_all_closed(xs, bound, st),
        InstrView::Assign(n, x) => lemma_subst_closed(*x, bound, st),
        InstrView::ArrayRepeat(v, n) => {
            lemma_subst_closed(*v, bound, st);
            lemma_subst_closed(*n, subst(*v, bound, st).1, st);
        },
        InstrView::Call(f, xs) => {
            lemma_subst_closed(*f, bound, st);
            lemma_subst_all_closed(xs, subst(*f, bound, st).1, st);
        },
        InstrView::Function(ps, _, body) => lemma_subst_all_closed(body, bound + param_names(ps), st),
        InstrView::BinOperation(l, _, r) => {
            lemma_subst_closed(*l, bound, st);
            lemma_subst_closed(*r, subst(*l, bound, st).1, st);
        },
        InstrView::Loop(body) => lemma_subst_all_closed(body, bound, st),
        InstrView::If(c, a, e) => {
            lemma_subst_closed(*c, bound, st);
            lemma_subst_all_closed(a, subst(*c, bound, st).1, st);
            lemma_subst_all_closed(e, subst(*c, bound, st).1, st);
        },
        _ => {},
    }
}

/// What [`subst`] turns into a known value sets no name.
proof fn lemma_subst_known(i: InstrView, bound: Seq<Seq<char>>, st: StateView)
    ensures
        subst(i, bound, st).0 is Variable ==> subst(i, bound, st).1 == bound,
    decreases i,
{
    match i {
        InstrView::Array(xs) => lemma_subst_all_known(xs, bound, st),
        InstrView::BinOperation(l, _, r) => {
            lemma_subst_known(*l, bound, st);
            lemma_subst_known(*r, subst(*l, bound, st).1, st);
        },
        _ => {},
    }
}

proof fn lemma_subst_all_known(xs: Seq<InstrView>, bound: Seq<Seq<char>>, st: StateView)
    ensures
        known_values(subst_all(xs, bound, st).0) is Some ==> subst_all(xs, bound, st).1 == bound,
    decreases xs,
{
    if xs.len() > 0 {
        let (y, b1) = subst(xs[0], bound, st);
        let rest = xs.subrange(1, xs.len() as int);
        lemma_subst_known(xs[0], bound, st);
        lemma_subst_all_known(rest, b1, st);
        let ys = subst_all(xs, bound, st).0;
        assert(ys[0] == y);
        assert(ys.subrange(1, ys.len() as int) =~= subst_all(rest, b1, st).0);
    }
}

/// Instructions that are all known values run to those values and change
/// no variable.
pub proof fn lemma_known_values_run(xs: Seq<InstrView>, st: StateView, fuel: nat)
    ensures
        known_values(xs) matches Some(vs) ==> eval_all(xs, st, fuel) == Some(
            (Ok::<Seq<Value>, ExecStop>(vs), st),
        ),
    decreases xs.len(),
{
    if xs.len() > 0 {
        let rest = xs.subrange(1, xs.len() as int);
        lemma_known_values_run(rest, st, fuel);
        if let InstrView::Variable(v) = xs[0] {
            assert(eval(xs[0], st, fuel) == Some((Ok::<Value, ExecStop>(v), st)));
            if let Some(vs) = known_values(rest) {
                assert(eval_all(rest, st, fuel) == Some((Ok::<Seq<Value>, ExecStop>(vs), st)));
            }
        }
    }
}

/// Folding an array literal of known values keeps what it gives.
pub proof fn lemma_fold_array_keeps_meaning(xs: Seq<InstrView>, st: StateView, fuel: nat)
    ensures
        eval(fold_array(xs), st, fuel) == eval(InstrView::Array(xs), st, fuel),
{
    lemma_known_values_run(xs, st, fuel);
}

/// Folding an operation on known values keeps what it gives.
pub proof fn lemma_fold_op_keeps_meaning(l: InstrView, op: BinOperator, r: InstrView, st: StateView, fuel: nat)
    ensures
        eval(fold_op(l, op, r), st, fuel) == eval(
            InstrView::BinOperation(Box::new(l), op, Box::new(r)),
            st,
            fuel,
        ),
{
    if let (InstrView::Variable(a), InstrView::Variable(b)) = (l, r) {
        if folds(op) {
            assert(eval(l, st, fuel) == Some((Ok::<Value, ExecStop>(a), st)));
            assert(eval(r, st, fuel) == Some((Ok::<Value, ExecStop>(b), st)));
            if let Some(Ok(v)) = apply_op(op, a, b) {
                assert(eval(InstrView::Variable(v), st, fuel) == Some((Ok::<Value, ExecStop>(v), st)));
            }
        }
    }
}

pub proof fn lemma_subst_all_closed(xs: Seq<InstrView>, bound: Seq<Seq<char>>, st: StateView)
    ensures
        closed_all(subst_all(xs, bound, st).0, bound, st) == (true, subst_all(xs, bound, st).1),
    decreases xs,
{
    if xs.len() > 0 {
        let (y, b1) = subst(xs[0], bound, st);
        let rest = xs.subrange(1, xs.len() as int);
        lemma_subst_closed(xs[0], bound, st);
        lemma_subst_all_closed(rest, b1, st);
        let ys = subst_all(xs, bound, st).0;
        assert(ys[0] == y);
        assert(ys.subrange(1, ys.len() as int) =~= subst_all(rest, b1, st).0);
    }
}

/// A function literal captures, by value, every variable it reads that is
/// set when it runs: the body of the function it gives reads, apart from its
/// parameters and what it sets itself, no variable that was set then, so a
/// later assignment to such a variable does not change the function.
pub proof fn lemma_function_captures(ps: Seq<ParamView>, t: crate::variable::var_type::TypeView, body: Seq<InstrView>, st: StateView, fuel: nat)
    ensures
        eval(InstrView::Function(ps, t, body), st, fuel) matches Some((Ok(Value::Function(fv)), s))
            && s == st && closed_all(fv.body, param_names(ps), st).0,
{
    lemma_subst_all_closed(body, param_names(ps), st);
}

/// Instructions run one after another: running `xs` then `ys` is running
/// `xs`, then `ys` on the variables that `xs` leaves; the first error stops
/// the run.
pub proof fn lemma_eval_all_sequence(xs: Seq<InstrView>, ys: Seq<InstrView>, st: StateView, fuel: nat)
    ensures
        eval_all(xs + ys, st, fuel) == match eval_all(xs, st, fuel) {
            Some((Ok(a), s1)) => match eval_all(ys, s1, fuel) {
                Some((Ok(b), s2)) => Some((Ok(a + b), s2)),
                other => other,
            },
            other => other,
        },
    decreases xs.len(),
{
    if xs.len() == 0 {
        assert(xs + ys =~= ys);
        if let Some((Ok(b), s2)) = eval_all(ys, st, fuel) {
            assert(Seq::<Value>::empty() + b =~= b);
        }
    } else {
        let rest = xs.subrange(1, xs.len() as int);
        assert((xs + ys)[0] == xs[0]);
        assert((xs + ys).subrange(1, (xs + ys).len() as int) =~= rest + ys);
        if let Some((Ok(v), s1)) = eval(xs[0], st, fuel) {
            lemma_eval_all_sequence(rest, ys, s1, fuel);
            if let Some((Ok(a), s2)) = eval_all(rest, s1, fuel) {
                if let Some((Ok(b), s3)) = eval_all(ys, s2, fuel) {
                    assert(seq![v] + (a + b) =~= (seq![v] + a) + b);
                }
            }
        }
    }
}

} // verus!
