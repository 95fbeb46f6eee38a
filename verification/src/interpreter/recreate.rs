use crate::bin_operator::BinOperator;
use crate::function::param::param_views;
use crate::interpreter::eval::{
    fold_array, fold_op, folds, known_values, param_names, subst, subst_all,
};
use crate::interpreter::exec::{apply_operator, op_outcome};
use crate::variable::value::{lemma_values, values, Value, Variable};
use crate::interpreter::instruction::{
    instr_views, lemma_instr_views, BinOperation, InstrView, Instruction,
};
use crate::interpreter::state::Interpreter;
use vstd::prelude::*;

verus! {

/// The texts of names.
pub open spec fn names(v: Seq<String>) -> Seq<Seq<char>> {
    Seq::new(v.len(), |i: int| v[i]@)
}

/// The models of `s` with one more instruction.
pub proof fn lemma_instr_views_push(s: Seq<Instruction>, x: Instruction)
    ensures
        instr_views(s.push(x)) == instr_views(s).push(x@),
{
    assert(s.push(x).subrange(0, s.len() as int) =~= s);
}

fn contains_name(bound: &Vec<String>, n: &String) -> (r: bool)
    ensures
        r == names(bound@).contains(n@),
{
    let mut i: usize = 0;
    while i < bound.len()
        invariant
            0 <= i <= bound.len(),
            forall|j: int| 0 <= j < i ==> bound@[j]@ != n@,
        decreases bound.len() - i,
    {
        if bound[i] == *n {
            assert(names(bound@)[i as int] == n@);
            return true;
        }
        i += 1;
    }
    assert forall|j: int| 0 <= j < names(bound@).len() implies names(bound@)[j] != n@ by {
        assert(names(bound@)[j] == bound@[j]@);
    }
    false
}

fn copy_names(bound: &Vec<String>) -> (r: Vec<String>)
    ensures
        names(r@) == names(bound@),
{
    let mut r: Vec<String> = Vec::new();
    let mut i: usize = 0;
    while i < bound.len()
        invariant
            0 <= i <= bound.len(),
            r.len() == i,
            forall|j: int| 0 <= j < i ==> #[trigger] r@[j]@ == bound@[j]@,
        decreases bound.len() - i,
    {
        r.push(bound[i].clone());
        i += 1;
    }
    assert(names(r@) =~= names(bound@));
    r
}

/// [`Instruction::recreate`] of each instruction, from the first.
pub fn recreate_all(xs: &Vec<Instruction>, bound: &mut Vec<String>, st: &Interpreter) -> (r: Vec<
    Instruction,
>)
    ensures
        (instr_views(r@), names(final(bound)@)) == subst_all(
            instr_views(xs@),
            names(old(bound)@),
            st@,
        ),
    decreases xs,
{
    let ghost v = instr_views(xs@);
    let ghost b0 = names(bound@);
    proof {
        lemma_instr_views(xs@);
        assert(v.subrange(0, v.len() as int) =~= v);
        assert(instr_views(Seq::<Instruction>::empty()) =~= Seq::<InstrView>::empty());
    }
    let mut out: Vec<Instruction> = Vec::new();
    let mut i: usize = 0;
    while i < xs.len()
        invariant
            0 <= i <= xs.len(),
            v == instr_views(xs@),
            v.len() == xs.len(),
            forall|j: int| 0 <= j < xs.len() ==> #[trigger] v[j] == xs@[j]@,
            subst_all(v, b0, st@) == (
                instr_views(out@) + subst_all(v.subrange(i as int, v.len() as int), names(bound@), st@).0,
                subst_all(v.subrange(i as int, v.len() as int), names(bound@), st@).1,
            ),
        decreases xs.len() - i,
    {
        let ghost w = v.subrange(i as int, v.len() as int);
        let ghost bi = names(bound@);
        let ghost before = out@;
        proof {
            assert(w[0] == xs@[i as int]@);
            assert(w.subrange(1, w.len() as int) =~= v.subrange(i + 1, v.len() as int));
            assert(decreases_to!(xs => xs@[i as int]));
        }
        let y = xs[i].recreate(bound, st);
        out.push(y);
        proof {
            lemma_instr_views_push(before, y);
            let (y1, b1) = subst(w[0], bi, st@);
            let (ys, b2) = subst_all(w.subrange(1, w.len() as int), b1, st@);
            assert(instr_views(before) + (seq![y1] + ys) =~= instr_views(out@) + ys);
        }
        i += 1;
    }
    proof {
        assert(v.subrange(xs.len() as int, v.len() as int) =~= Seq::<InstrView>::empty());
        assert(instr_views(out@) + Seq::<InstrView>::empty() =~= instr_views(out@));
    }
    out
}

/// The values `p` in front of those of further known values.
pub open spec fn prepend_known(p: Seq<Value>, res: Option<Seq<Value>>) -> Option<Seq<Value>> {
    match res {
        Some(vs) => Some(p + vs),
        None => None,
    }
}

/// The values of `xs` when they are all known values (see `known_values`).
fn known_values_of(xs: &Vec<Instruction>) -> (r: Option<Vec<Variable>>)
    ensures
        match r {
            Some(vs) => known_values(instr_views(xs@)) == Some(values(vs@)),
            None => known_values(instr_views(xs@)) is None,
        },
{
    let ghost v = instr_views(xs@);
    proof {
        lemma_instr_views(xs@);
        assert(v.subrange(0, v.len() as int) =~= v);
    }
    let mut out: Vec<Variable> = Vec::new();
    proof {
        lemma_values(out@);
        let res = known_values(v);
        assert(prepend_known(Seq::<Value>::empty(), res) == res) by {
            if let Some(vs) = res {
                assert(Seq::<Value>::empty() + vs =~= vs);
            }
        }
    }
    let mut i: usize = 0;
    while i < xs.len()
        invariant
            0 <= i <= xs.len(),
            v == instr_views(xs@),
            v.len() == xs.len(),
            forall|j: int| 0 <= j < xs.len() ==> #[trigger] v[j] == xs@[j]@,
            known_values(v) == prepend_known(
                values(out@),
                known_values(v.subrange(i as int, v.len() as int)),
            ),
        decreases xs.len() - i,
    {
        let ghost w = v.subrange(i as int, v.len() as int);
        proof {
            assert(w[0] == xs@[i as int]@);
            assert(w.subrange(1, w.len() as int) =~= v.subrange(i + 1, v.len() as int));
        }
        match &xs[i] {
            Instruction::Variable(x) => {
                let ghost before = out@;
                let y = x.clone();
                out.push(y);
                proof {
                    lemma_values(before);
                    lemma_values(out@);
                    assert(values(out@) =~= values(before).push(x@));
                    if let Some(vs) = known_values(v.subrange(i + 1, v.len() as int)) {
                        assert(values(before) + (seq![x@] + vs) =~= values(before).push(x@) + vs);
                    }
                }
            },
            _ => return None,
        }
        i += 1;
    }
    proof {
        assert(v.subrange(xs.len() as int, v.len() as int) =~= Seq::<InstrView>::empty());
        assert(values(out@) + Seq::<Value>::empty() =~= values(out@));
    }
    Some(out)
}

/// [`fold_array`] of the instructions `xs`.
fn fold_array_exec(xs: Vec<Instruction>) -> (r: Instruction)
    ensures
        r@ == fold_array(instr_views(xs@)),
{
    match known_values_of(&xs) {
        Some(vs) => {
            let v = Variable::Array(vs);
            assert(v@ == Value::Array(values(vs@)));
            let r = Instruction::Variable(v);
            assert(r@ == InstrView::Variable(v@));
            r
        },
        None => {
            let r = Instruction::Array(xs);
            assert(r@ == InstrView::Array(instr_views(xs@)));
            r
        },
    }
}

/// [`fold_op`] of the instructions `l` and `r`.
fn fold_op_exec(l: Instruction, op: BinOperator, r: Instruction) -> (res: Instruction)
    ensures
        res@ == fold_op(l@, op, r@),
{
    let foldable = op != BinOperator::And && op != BinOperator::Or && op != BinOperator::Filter
        && op != BinOperator::MapOp;
    assert(foldable == folds(op));
    if foldable {
        if let (Instruction::Variable(a), Instruction::Variable(b)) = (&l, &r) {
            let res = apply_operator(op, a.clone(), b.clone());
            if let Some(Ok(v)) = res {
                assert(op_outcome(res) == Some(Ok::<Value, crate::errors::exec_error::ExecError>(v@)));
                return Instruction::Variable(v);
            }
        }
    }
    Instruction::BinOperation(Box::new(BinOperation { lhs: l, rhs: r, op }))
}

impl Instruction {
    /// This instruction with every variable that is neither in `bound` nor
    /// set before it replaced by its value in `st` where `st` has one; the
    /// names it sets are added to `bound`; array literals and operations whose
    /// parts are all values become their values (see `subst`).
    pub fn recreate(&self, bound: &mut Vec<String>, st: &Interpreter) -> (r: Instruction)
        ensures
            (r@, names(final(bound)@)) == subst(self@, names(old(bound)@), st@),
        decreases self,
    {
        match self {
            Instruction::Variable(v) => Instruction::Variable(v.clone()),
            Instruction::LocalVariable(n) => {
                if contains_name(bound, n) {
                    return Instruction::LocalVariable(n.clone());
                }
                match st.get(n.as_str()) {
                    Some(v) => Instruction::Variable(v),
                    None => Instruction::LocalVariable(n.clone()),
                }
            },
            Instruction::Array(xs) => fold_array_exec(recreate_all(xs, bound, st)),
            Instruction::ArrayRepeat(v, n) => {
                let v2 = (**v).recreate(bound, st);
                let n2 = (**n).recreate(bound, st);
                Instruction::ArrayRepeat(Box::new(v2), Box::new(n2))
            },
            Instruction::Assign(n, x) => {
                let y = (**x).recreate(bound, st);
                bound.push(n.clone());
                let r = Instruction::Assign(n.clone(), Box::new(y));
                proof {
                    let (_, b) = subst(x@, names(old(bound)@), st@);
                    assert(names(bound@) =~= b.push(n@));
                }
                r
            },
            Instruction::Call(f, xs) => {
                let g = (**f).recreate(bound, st);
                let ys = recreate_all(xs, bound, st);
                Instruction::Call(Box::new(g), ys)
            },
            Instruction::Function(ps, t, body) => {
                let mut inner = copy_names(bound);
                let mut k: usize = 0;
                while k < ps.0.len()
                    invariant
                        0 <= k <= ps@.len(),
                        names(inner@) == names(bound@) + param_names(param_views(ps@)).subrange(
                            0,
                            k as int,
                        ),
                    decreases ps@.len() - k,
                {
                    let ghost before = names(inner@);
                    inner.push(ps.0[k].name.clone());
                    proof {
                        assert(names(inner@) =~= before.push(ps@[k as int].name@));
                        assert(param_names(param_views(ps@)).subrange(0, k + 1) =~= param_names(
                            param_views(ps@),
                        ).subrange(0, k as int).push(ps@[k as int].name@));
                    }
                    k += 1;
                }
                proof {
                    assert(param_names(param_views(ps@)).subrange(0, ps@.len() as int) =~= param_names(
                        param_views(ps@),
                    ));
                }
                let new_body = recreate_all(body, &mut inner, st);
                Instruction::Function(ps.clone(), t.clone(), new_body)
            },
            Instruction::Loop(body) => Instruction::Loop(recreate_all(body, bound, st)),
            Instruction::If(c, a, e) => {
                let c2 = (**c).recreate(bound, st);
                let mut in_then = copy_names(bound);
                let a2 = recreate_all(a, &mut in_then, st);
                let mut in_else = copy_names(bound);
                let e2 = recreate_all(e, &mut in_else, st);
                Instruction::If(Box::new(c2), a2, e2)
            },
            Instruction::Break => Instruction::Break,
            Instruction::Continue => Instruction::Continue,
            Instruction::BinOperation(b) => {
                let l2 = b.lhs.recreate(bound, st);
                let r2 = b.rhs.recreate(bound, st);
                fold_op_exec(l2, b.op, r2)
            },
        }
    }
}

} // verus!
