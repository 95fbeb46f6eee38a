use crate::bin_operator::BinOperator;
use crate::function::param::{param_views, ParamView, Params};
use crate::variable::value::{Value, Variable};
use crate::variable::var_type::{Type, TypeView};
use vstd::prelude::*;

verus! {

/// An instruction of a script, ready to run.
#[derive(Debug, PartialEq, Eq)]
pub enum Instruction {
    /// A value known when the script was read.
    Variable(Variable),
    /// The value of a variable.
    LocalVariable(String),
    /// An array literal: its elements, run from the first.
    Array(Vec<Instruction>),
    /// `[value; len]`: the value, then the length, then that many copies of
    /// the value.
    ArrayRepeat(Box<Instruction>, Box<Instruction>),
    /// `name = value`.
    Assign(String, Box<Instruction>),
    /// `function(args)`: the function, then the arguments from the first.
    Call(Box<Instruction>, Vec<Instruction>),
    /// A function literal: parameters, result type and body.
    Function(Params, Type, Vec<Instruction>),
    /// `lhs op rhs`.
    BinOperation(Box<BinOperation>),
    /// `loop { body }`: runs the body again and again until a `break`.
    Loop(Vec<Instruction>),
    /// `if condition { then } else { otherwise }`: runs one of the blocks,
    /// whose variables do not outlive it.
    If(Box<Instruction>, Vec<Instruction>, Vec<Instruction>),
    /// `break`: leaves the innermost loop.
    Break,
    /// `continue`: goes on with the next round of the innermost loop.
    Continue,
}

/// `lhs op rhs`: an operator applied to the values of two instructions.
#[derive(Debug, PartialEq, Eq)]
pub struct BinOperation {
    pub lhs: Instruction,
    pub rhs: Instruction,
    pub op: BinOperator,
}

/// Model of an [`Instruction`].
pub enum InstrView {
    Variable(Value),
    LocalVariable(Seq<char>),
    Array(Seq<InstrView>),
    ArrayRepeat(Box<InstrView>, Box<InstrView>),
    Assign(Seq<char>, Box<InstrView>),
    Call(Box<InstrView>, Seq<InstrView>),
    Function(Seq<ParamView>, TypeView, Seq<InstrView>),
    BinOperation(Box<InstrView>, BinOperator, Box<InstrView>),
    Loop(Seq<InstrView>),
    If(Box<InstrView>, Seq<InstrView>, Seq<InstrView>),
    Break,
    Continue,
}

impl Instruction {
    pub open spec fn view(&self) -> InstrView
        decreases self,
    {
        match self {
            Instruction::Variable(v) => InstrView::Variable(v.view()),
            Instruction::LocalVariable(n) => InstrView::LocalVariable(n@),
            Instruction::Array(xs) => InstrView::Array(instr_views(xs@)),
            Instruction::ArrayRepeat(v, n) => InstrView::ArrayRepeat(
                Box::new((**v).view()),
                Box::new((**n).view()),
            ),
            Instruction::Assign(n, x) => InstrView::Assign(n@, Box::new((**x).view())),
            Instruction::Call(f, xs) => InstrView::Call(Box::new((**f).view()), instr_views(xs@)),
            Instruction::Function(ps, t, body) => InstrView::Function(
                param_views(ps@),
                t@,
                instr_views(body@),
            ),
            Instruction::BinOperation(b) => InstrView::BinOperation(
                Box::new(b.lhs.view()),
                b.op,
                Box::new(b.rhs.view()),
            ),
            Instruction::Loop(body) => InstrView::Loop(instr_views(body@)),
            Instruction::If(c, a, b) => InstrView::If(
                Box::new((**c).view()),
                instr_views(a@),
                instr_views(b@),
            ),
            Instruction::Break => InstrView::Break,
            Instruction::Continue => InstrView::Continue,
        }
    }
}

impl BinOperation {
    pub open spec fn view(&self) -> InstrView {
        InstrView::BinOperation(Box::new(self.lhs@), self.op, Box::new(self.rhs@))
    }
}

/// The models of a sequence of instructions.
pub open spec fn instr_views(s: Seq<Instruction>) -> Seq<InstrView>
    decreases s,
{
    if s.len() == 0 {
        Seq::empty()
    } else {
        instr_views(s.subrange(0, s.len() - 1)).push(s[s.len() - 1].view())
    }
}

pub proof fn lemma_instr_views(s: Seq<Instruction>)
    ensures
        instr_views(s).len() == s.len(),
        forall|i: int| 0 <= i < s.len() ==> #[trigger] instr_views(s)[i] == s[i]@,
    decreases s.len(),
{
    if s.len() > 0 {
        lemma_instr_views(s.subrange(0, s.len() - 1));
    }
}

/// A copy of each instruction.
pub fn duplicate_instrs(xs: &Vec<Instruction>) -> (r: Vec<Instruction>)
    ensures
        instr_views(r@) == instr_views(xs@),
    decreases xs,
{
    let mut r: Vec<Instruction> = Vec::new();
    let mut i: usize = 0;
    while i < xs.len()
        invariant
            0 <= i <= xs.len(),
            r.len() == i,
            forall|j: int| 0 <= j < i ==> #[trigger] r@[j]@ == xs@[j]@,
        decreases xs.len() - i,
    {
        proof {
            assert(decreases_to!(xs => xs@[i as int]));
        }
        r.push(xs[i].duplicate());
        i += 1;
    }
    proof {
        lemma_instr_views(r@);
        lemma_instr_views(xs@);
        assert(instr_views(r@) =~= instr_views(xs@));
    }
    r
}

impl Instruction {
    /// A copy of this instruction.
    pub fn duplicate(&self) -> (r: Instruction)
        ensures
            r@ == self@,
        decreases self,
    {
        match self {
            Instruction::Variable(v) => Instruction::Variable(v.duplicate()),
            Instruction::LocalVariable(n) => Instruction::LocalVariable(n.clone()),
            Instruction::Array(xs) => Instruction::Array(duplicate_instrs(xs)),
            Instruction::ArrayRepeat(v, n) => Instruction::ArrayRepeat(
                Box::new((**v).duplicate()),
                Box::new((**n).duplicate()),
            ),
            Instruction::Assign(n, x) => Instruction::Assign(n.clone(), Box::new((**x).duplicate())),
            Instruction::Call(f, xs) => Instruction::Call(
                Box::new((**f).duplicate()),
                duplicate_instrs(xs),
            ),
            Instruction::Function(ps, t, body) => Instruction::Function(
                ps.clone(),
                t.clone(),
                duplicate_instrs(body),
            ),
            Instruction::BinOperation(b) => Instruction::BinOperation(
                Box::new(BinOperation { lhs: b.lhs.duplicate(), rhs: b.rhs.duplicate(), op: b.op }),
            ),
            Instruction::Loop(body) => Instruction::Loop(duplicate_instrs(body)),
            Instruction::If(c, a, b) => Instruction::If(
                Box::new((**c).duplicate()),
                duplicate_instrs(a),
                duplicate_instrs(b),
            ),
            Instruction::Break => Instruction::Break,
            Instruction::Continue => Instruction::Continue,
        }
    }
}

} // verus!
