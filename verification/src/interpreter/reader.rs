use crate::bin_operator::BinOperator;
use crate::errors::error::Error;
use crate::function::param::{param_types, param_views, ParamView, Params};
use crate::instruction::array::{elements_type, Array};
use crate::instruction::bin_op::{
    check_infix, operation_type, operation_type_defined, spec_can_be_used, spec_operation_type,
};
use crate::interpreter::instruction::{instr_views, BinOperation, InstrView, Instruction};
use crate::interpreter::script::{tree_views, TreeView};
use crate::variable::literal::{string_literal, unescaped};
use crate::variable::value::{Value, Variable};
use crate::variable::var_type::{lemma_views, type_matches, union, views, Type, TypeView};
use crate::interpreter::statement::{push_tree_text, tree_text};
use vstd::prelude::*;

verus! {

/// The tree that the grammar gives for a piece of script.
#[derive(Debug, PartialEq, Eq)]
pub enum ParseTree {
    /// An integer literal.
    Int(i64),
    /// `true` or `false`.
    Bool(bool),
    /// A float literal, by its IEEE 754 bit pattern.
    Float(u64),
    /// A string literal: its text between the quotes, escapes not yet replaced.
    Text(String),
    /// A variable.
    Ident(String),
    /// An array literal.
    Array(Vec<ParseTree>),
    /// `[value; len]`.
    ArrayRepeat(Box<ParseTree>, Box<ParseTree>),
    /// `name = value`.
    Assignment(String, Box<ParseTree>),
    /// `name(args)`.
    Call(String, Vec<ParseTree>),
    /// A function literal: its parameters, its result type and its body.
    Function(Params, Type, Vec<ParseTree>),
    /// `lhs op rhs`.
    Infix(Box<ParseTree>, BinOperator, Box<ParseTree>),
    /// `loop { body }`.
    Loop(Vec<ParseTree>),
    /// `if condition { then } else { otherwise }`; the `else` block may be
    /// left out, and is then empty.
    If(Box<ParseTree>, Vec<ParseTree>, Vec<ParseTree>),
    /// `break`.
    Break,
    /// `continue`.
    Continue,
}

/// The variables known while a script is read, with their types, in the
/// order they were set; a later one hides an earlier one of the same name.
#[derive(Debug)]
pub struct LocalVariables {
    pub variables: Vec<(String, Type)>,
    /// Whether the script being read stands inside a loop.
    pub in_loop: bool,
}

pub type LocalsView = Seq<(Seq<char>, TypeView)>;

pub open spec fn locals_view(s: Seq<(String, Type)>) -> LocalsView {
    Seq::new(s.len(), |i: int| (s[i].0@, s[i].1@))
}

/// The type last given to `name`.
pub open spec fn lookup_type(l: LocalsView, name: Seq<char>) -> Option<TypeView>
    decreases l.len(),
{
    if l.len() == 0 {
        None
    } else if l[l.len() - 1].0 == name {
        Some(l[l.len() - 1].1)
    } else {
        lookup_type(l.subrange(0, l.len() - 1), name)
    }
}

/// `l` with the parameters `ps` added.
pub open spec fn with_params(l: LocalsView, ps: Seq<ParamView>) -> LocalsView {
    l + Seq::new(ps.len(), |i: int| (ps[i].name, ps[i].var_type))
}

/// The type of a block whose instructions have the types `ts`.
pub open spec fn block_type(ts: Seq<TypeView>) -> TypeView {
    if ts.len() == 0 {
        TypeView::Void
    } else {
        ts[ts.len() - 1]
    }
}

/// Why a script is refused.
pub enum Refusal {
    /// A variable that is not set.
    VariableDoesntExist(Seq<char>),
    /// A call of a variable that does not hold a function.
    NotAFunction(Seq<char>),
    /// A call of the named function with another number of arguments than
    /// its number of parameters.
    WrongNumberOfArguments(Seq<char>, nat),
    /// A call of the named function with an argument that does not match the
    /// type of its parameter, that type.
    WrongType(Seq<char>, TypeView),
    /// A function literal whose body gives another type than its result
    /// type: the declared type and the type given.
    WrongReturn(TypeView, TypeView),
    /// An operator on operands of types it does not take.
    CannotDo2(TypeView, BinOperator, TypeView),
    /// A string literal with a wrong escape, and the message.
    CannotUnescapeString(Seq<char>),
    /// `[value; len]` whose length is not an `int`: the length's text.
    WrongLengthType(Seq<char>),
    /// An `if` whose condition is not a `bool`: the condition's text and
    /// type.
    WrongCondition(Seq<char>, TypeView),
    BreakOutsideLoop,
    ContinueOutsideLoop,
}

/// `e` is the error that reports the refusal `r`.
pub open spec fn reports(e: Error, r: Refusal) -> bool {
    match (e, r) {
        (Error::VariableDoesntExist(n), Refusal::VariableDoesntExist(m)) => n@ == m,
        (Error::NotAFunction(n), Refusal::NotAFunction(m)) => n@ == m,
        (Error::WrongNumberOfArguments(n, k), Refusal::WrongNumberOfArguments(m, j)) => n@ == m && k
            == j,
        (Error::WrongType(n, t), Refusal::WrongType(m, u)) => n@ == m && t@ == u,
        (
            Error::WrongReturn { function_name, function_return_type, returned },
            Refusal::WrongReturn(t, u),
        ) => function_name is None && function_return_type@ == t && returned@ == u,
        (Error::CannotDo2(t1, op, t2), Refusal::CannotDo2(u1, o, u2)) => t1@ == u1 && op == o
            && t2@ == u2,
        (Error::CannotUnescapeString(m), Refusal::CannotUnescapeString(n)) => m@ == n,
        (Error::WrongCondition(m, t), Refusal::WrongCondition(n, u)) => m@ == n && t@ == u,
        (Error::WrongLengthType(m), Refusal::WrongLengthType(n)) => m@ == n,
        (Error::BreakOutsideLoop, Refusal::BreakOutsideLoop) => true,
        (Error::ContinueOutsideLoop, Refusal::ContinueOutsideLoop) => true,
        _ => false,
    }
}

/// A value of type `t` may be a float or an array of floats.
pub open spec fn admits_float(t: TypeView) -> bool {
    type_matches(TypeView::Float, t) || type_matches(TypeView::Array(Box::new(TypeView::Float)), t)
}

/// The operations that a script may hold beyond the type check of the
/// operator: an assignment operator (it needs a mutable reference, which
/// this interpreter does not have) and a call written as an operator (a call
/// is its own form) are refused; float arithmetic is not part of this
/// library, so `+ - * / **` are refused on operands that may hold floats,
/// and a comparison takes integers; `@` takes an array, and an index is an
/// integer.
pub open spec fn runnable(lhs: TypeView, rhs: TypeView, op: BinOperator) -> bool {
    match op {
        BinOperator::Assign
        | BinOperator::AssignAdd
        | BinOperator::AssignSubtract
        | BinOperator::AssignMultiply
        | BinOperator::AssignDivide
        | BinOperator::AssignModulo
        | BinOperator::AssignLShift
        | BinOperator::AssignRShift
        | BinOperator::AssignBitwiseAnd
        | BinOperator::AssignBitwiseOr
        | BinOperator::AssignXor
        | BinOperator::AssignPow
        | BinOperator::FunctionCall => false,
        BinOperator::Lower
        | BinOperator::LowerOrEqual
        | BinOperator::Greater
        | BinOperator::GreaterOrEqual => type_matches(lhs, TypeView::Int) && type_matches(
            rhs,
            TypeView::Int,
        ),
        BinOperator::Add
        | BinOperator::Subtract
        | BinOperator::Multiply
        | BinOperator::Divide
        | BinOperator::Pow => !admits_float(lhs) && !admits_float(rhs),
        BinOperator::MapOp => type_matches(lhs, TypeView::Array(Box::new(TypeView::Any))),
        BinOperator::At => type_matches(rhs, TypeView::Int),
        _ => true,
    }
}

/// The type of the first parameter, of the types `ps`, whose argument, of the
/// types `ts`, does not match it.
pub open spec fn first_mismatch(ts: Seq<TypeView>, ps: Seq<TypeView>) -> Option<TypeView>
    decreases ts.len(),
{
    if ts.len() == 0 || ps.len() == 0 {
        None
    } else if !type_matches(ts[0], ps[0]) {
        Some(ps[0])
    } else {
        first_mismatch(ts.subrange(1, ts.len() as int), ps.subrange(1, ps.len() as int))
    }
}

/// The type of a function literal with the parameters `ps` and the result
/// type `ret`.
pub open spec fn function_type(ps: Seq<ParamView>, ret: TypeView) -> TypeView {
    TypeView::Function(Seq::new(ps.len(), |k: int| ps[k].var_type), Box::new(ret))
}

/// The known variables with which the value of `name = x` is read: a
/// function literal already knows `name`, with its own type, so that its
/// body can call it.
pub open spec fn self_known(name: Seq<char>, x: TreeView, l: LocalsView) -> LocalsView {
    match x {
        TreeView::Function(ps, ret, _) => l.push((name, function_type(ps, ret))),
        _ => l,
    }
}

/// The instruction that `t` becomes on the known variables `l`, its type and
/// the known variables afterwards; or why the script is refused: an unknown
/// variable, a string whose escapes are wrong, a call of something that is
/// not a function or with arguments that do not match, a function whose body
/// does not give its result type, an operator that does not apply, a `break`
/// or `continue` outside a loop (a function body is outside any loop). The
/// first refusal met, reading from the left, is the one given.
pub open spec fn build(t: TreeView, l: LocalsView, in_loop: bool) -> Result<
    (InstrView, TypeView, LocalsView),
    Refusal,
>
    decreases t,
{
    match t {
        TreeView::Int(i) => Ok((InstrView::Variable(Value::Int(i)), TypeView::Int, l)),
        TreeView::Bool(b) => Ok((InstrView::Variable(Value::Bool(b)), TypeView::Bool, l)),
        TreeView::Float(f) => Ok((InstrView::Variable(Value::Float(f)), TypeView::Float, l)),
        TreeView::Text(s) => match unescaped(s) {
            Ok(u) => Ok((InstrView::Variable(Value::String(u)), TypeView::String, l)),
            Err(m) => Err(Refusal::CannotUnescapeString(m)),
        },
        TreeView::Ident(n) => match lookup_type(l, n) {
            Some(ty) => Ok((InstrView::LocalVariable(n), ty, l)),
            None => Err(Refusal::VariableDoesntExist(n)),
        },
        TreeView::Array(xs) => match build_all(xs, l, in_loop) {
            Ok((is, ts, l2)) => Ok(
                (InstrView::Array(is), TypeView::Array(Box::new(elements_type(ts))), l2),
            ),
            Err(e) => Err(e),
        },
        TreeView::ArrayRepeat(v, n) => match build(*v, l, in_loop) {
            Ok((iv, tv, l1)) => match build(*n, l1, in_loop) {
                Ok((i_n, tn, l2)) => if type_matches(tn, TypeView::Int) {
                    Ok(
                        (
                            InstrView::ArrayRepeat(Box::new(iv), Box::new(i_n)),
                            TypeView::Array(Box::new(tv)),
                            l2,
                        ),
                    )
                } else {
                    Err(Refusal::WrongLengthType(tree_text(*n)))
                },
                Err(err) => Err(err),
            },
            Err(err) => Err(err),
        },
        TreeView::Assignment(n, x) => match build(*x, self_known(n, *x, l), in_loop) {
            Ok((i, ty, l2)) => Ok((InstrView::Assign(n, Box::new(i)), ty, l2.push((n, ty)))),
            Err(e) => Err(e),
        },
        TreeView::Call(n, args) => match lookup_type(l, n) {
            Some(TypeView::Function(ps, r)) => match build_all(args, l, in_loop) {
                Ok((is, ts, l2)) => if ts.len() != ps.len() {
                    Err(Refusal::WrongNumberOfArguments(n, ps.len()))
                } else {
                    match first_mismatch(ts, ps) {
                        Some(p) => Err(Refusal::WrongType(n, p)),
                        None => Ok(
                            (
                                InstrView::Call(Box::new(InstrView::LocalVariable(n)), is),
                                *r,
                                l2,
                            ),
                        ),
                    }
                },
                Err(e) => Err(e),
            },
            Some(_) => Err(Refusal::NotAFunction(n)),
            None => Err(Refusal::VariableDoesntExist(n)),
        },
        TreeView::Function(ps, ret, body) => match build_all(body, with_params(l, ps), false) {
            Ok((is, ts, _)) => if type_matches(block_type(ts), ret) {
                Ok(
                    (
                        InstrView::Function(ps, ret, is),
                        function_type(ps, ret),
                        l,
                    ),
                )
            } else {
                Err(Refusal::WrongReturn(ret, block_type(ts)))
            },
            Err(e) => Err(e),
        },
        TreeView::Infix(x, op, y) => match build(*x, l, in_loop) {
            Ok((i1, t1, l1)) => match build(*y, l1, in_loop) {
                Ok((i2, t2, l2)) => if spec_can_be_used(t1, t2, op) && operation_type_defined(
                    t1,
                    t2,
                    op,
                ) && runnable(t1, t2, op) {
                    Ok(
                        (
                            InstrView::BinOperation(Box::new(i1), op, Box::new(i2)),
                            spec_operation_type(t1, t2, op),
                            l2,
                        ),
                    )
                } else {
                    Err(Refusal::CannotDo2(t1, op, t2))
                },
                Err(e) => Err(e),
            },
            Err(e) => Err(e),
        },
        TreeView::Loop(body) => match build_all(body, l, true) {
            Ok((is, _, l2)) => Ok((InstrView::Loop(is), TypeView::Void, l2)),
            Err(e) => Err(e),
        },
        TreeView::If(c, a, e) => match build(*c, l, in_loop) {
            Ok((ic, tc, l1)) => if !type_matches(tc, TypeView::Bool) {
                Err(Refusal::WrongCondition(tree_text(*c), tc))
            } else {
                match build_all(a, l1, in_loop) {
                    Ok((ia, ta, _)) => match build_all(e, l1, in_loop) {
                        Ok((ie, te, _)) => Ok(
                            (
                                InstrView::If(Box::new(ic), ia, ie),
                                union(block_type(ta), block_type(te)),
                                l1,
                            ),
                        ),
                        Err(err) => Err(err),
                    },
                    Err(err) => Err(err),
                }
            },
            Err(err) => Err(err),
        },
        TreeView::Break => if in_loop {
            Ok((InstrView::Break, TypeView::Void, l))
        } else {
            Err(Refusal::BreakOutsideLoop)
        },
        TreeView::Continue => if in_loop {
            Ok((InstrView::Continue, TypeView::Void, l))
        } else {
            Err(Refusal::ContinueOutsideLoop)
        },
    }
}

/// [`build`] of each tree, from the first; the first refusal.
pub open spec fn build_all(xs: Seq<TreeView>, l: LocalsView, in_loop: bool) -> Result<
    (Seq<InstrView>, Seq<TypeView>, LocalsView),
    Refusal,
>
    decreases xs,
{
    if xs.len() == 0 {
        Ok((Seq::empty(), Seq::empty(), l))
    } else {
        match build(xs[0], l, in_loop) {
            Ok((i, t, l1)) => match build_all(xs.subrange(1, xs.len() as int), l1, in_loop) {
                Ok((is, ts, l2)) => Ok((seq![i] + is, seq![t] + ts, l2)),
                Err(e) => Err(e),
            },
            Err(e) => Err(e),
        }
    }
}

/// `t` holds a `break` or `continue` that is not inside a loop of its own
/// function; `in_loop` tells whether `t` itself stands inside a loop.
pub open spec fn misplaced_jump(t: TreeView, in_loop: bool) -> bool
    decreases t,
{
    match t {
        TreeView::Break => !in_loop,
        TreeView::Continue => !in_loop,
        TreeView::Loop(body) => misplaced_in(body, true),
        TreeView::Function(_, _, body) => misplaced_in(body, false),
        TreeView::Array(xs) => misplaced_in(xs, in_loop),
        TreeView::Call(_, xs) => misplaced_in(xs, in_loop),
        TreeView::Assignment(_, x) => misplaced_jump(*x, in_loop),
        TreeView::Infix(x, _, y) => misplaced_jump(*x, in_loop) || misplaced_jump(*y, in_loop),
        TreeView::ArrayRepeat(x, y) => misplaced_jump(*x, in_loop) || misplaced_jump(*y, in_loop),
        TreeView::If(c, a, e) => misplaced_jump(*c, in_loop) || misplaced_in(a, in_loop)
            || misplaced_in(e, in_loop),
        _ => false,
    }
}

pub open spec fn misplaced_in(xs: Seq<TreeView>, in_loop: bool) -> bool
    decreases xs,
{
    xs.len() > 0 && (misplaced_jump(xs[0], in_loop) || misplaced_in(
        xs.subrange(1, xs.len() as int),
        in_loop,
    ))
}

/// A script with a `break` or `continue` outside a loop is refused.
pub proof fn lemma_misplaced_jump_refused(t: TreeView, l: LocalsView, in_loop: bool)
    requires
        misplaced_jump(t, in_loop),
    ensures
        build(t, l, in_loop) is Err,
    decreases t,
{
    match t {
        TreeView::Loop(body) => lemma_misplaced_in_refused(body, l, true),
        TreeView::Function(ps, _, body) => lemma_misplaced_in_refused(
            body,
            with_params(l, ps),
            false,
        ),
        TreeView::Array(xs) => lemma_misplaced_in_refused(xs, l, in_loop),
        TreeView::Call(n, xs) => lemma_misplaced_in_refused(xs, l, in_loop),
        TreeView::Assignment(n, x) => lemma_misplaced_jump_refused(*x, self_known(n, *x, l), in_loop),
        TreeView::Infix(x, _, y) => {
            if misplaced_jump(*x, in_loop) {
                lemma_misplaced_jump_refused(*x, l, in_loop);
            } else if let Ok((_, _, l1)) = build(*x, l, in_loop) {
                lemma_misplaced_jump_refused(*y, l1, in_loop);
            }
        },
        TreeView::ArrayRepeat(x, y) => {
            if misplaced_jump(*x, in_loop) {
                lemma_misplaced_jump_refused(*x, l, in_loop);
            } else if let Ok((_, _, l1)) = build(*x, l, in_loop) {
                lemma_misplaced_jump_refused(*y, l1, in_loop);
            }
        },
        TreeView::If(c, a, e) => {
            if misplaced_jump(*c, in_loop) {
                lemma_misplaced_jump_refused(*c, l, in_loop);
            } else if let Ok((_, _, l1)) = build(*c, l, in_loop) {
                if misplaced_in(a, in_loop) {
                    lemma_misplaced_in_refused(a, l1, in_loop);
                } else {
                    lemma_misplaced_in_refused(e, l1, in_loop);
                }
            }
        },
        _ => {},
    }
}

proof fn lemma_misplaced_in_refused(xs: Seq<TreeView>, l: LocalsView, in_loop: bool)
    requires
        misplaced_in(xs, in_loop),
    ensures
        build_all(xs, l, in_loop) is Err,
    decreases xs,
{
    if misplaced_jump(xs[0], in_loop) {
        lemma_misplaced_jump_refused(xs[0], l, in_loop);
    } else if let Ok((_, _, l1)) = build(xs[0], l, in_loop) {
        lemma_misplaced_in_refused(xs.subrange(1, xs.len() as int), l1, in_loop);
    }
}

/// A name reads as the variable with the type it was given last; an unknown
/// name is refused, naming it; `break` and `continue` are read inside a loop
/// and refused outside it, each with its own error.
pub proof fn lemma_build_names_and_jumps(n: Seq<char>, t: TypeView, l: LocalsView, in_loop: bool)
    ensures
        build(TreeView::Ident(n), l.push((n, t)), in_loop) == Ok::<_, Refusal>(
            (InstrView::LocalVariable(n), t, l.push((n, t))),
        ),
        lookup_type(l, n) is None ==> build(TreeView::Ident(n), l, in_loop) == Err::<
            (InstrView, TypeView, LocalsView),
            Refusal,
        >(Refusal::VariableDoesntExist(n)),
        build(TreeView::Break, l, true) == Ok::<_, Refusal>((InstrView::Break, TypeView::Void, l)),
        build(TreeView::Continue, l, true) == Ok::<_, Refusal>(
            (InstrView::Continue, TypeView::Void, l),
        ),
        build(TreeView::Break, l, false) == Err::<(InstrView, TypeView, LocalsView), Refusal>(
            Refusal::BreakOutsideLoop,
        ),
        build(TreeView::Continue, l, false) == Err::<(InstrView, TypeView, LocalsView), Refusal>(
            Refusal::ContinueOutsideLoop,
        ),
{
    assert(l.push((n, t)).subrange(0, l.len() as int) =~= l);
}

/// An operation whose operands are read is refused exactly when its operator
/// does not apply to their types, and then with `CannotDo2` naming the two
/// types and the operator; otherwise it is the operation on the two read
/// operands.
pub proof fn lemma_build_infix(x: TreeView, op: BinOperator, y: TreeView, l: LocalsView, in_loop: bool)
    ensures
        build(x, l, in_loop) matches Ok((i1, t1, l1)) ==> (build(y, l1, in_loop) matches Ok(
            (i2, t2, l2),
        ) ==> build(TreeView::Infix(Box::new(x), op, Box::new(y)), l, in_loop) == if spec_can_be_used(
            t1,
            t2,
            op,
        ) && operation_type_defined(t1, t2, op) && runnable(t1, t2, op) {
            Ok::<_, Refusal>(
                (
                    InstrView::BinOperation(Box::new(i1), op, Box::new(i2)),
                    spec_operation_type(t1, t2, op),
                    l2,
                ),
            )
        } else {
            Err(Refusal::CannotDo2(t1, op, t2))
        }),
{
}

/// The instructions, types and known variables after reading trees, with
/// `is` and `ts` read before.
pub open spec fn prepend_read(
    is: Seq<InstrView>,
    ts: Seq<TypeView>,
    res: Result<(Seq<InstrView>, Seq<TypeView>, LocalsView), Refusal>,
) -> Result<(Seq<InstrView>, Seq<TypeView>, LocalsView), Refusal> {
    match res {
        Ok((a, b, l)) => Ok((is + a, ts + b, l)),
        Err(e) => Err(e),
    }
}

impl LocalVariables {
    pub open spec fn view(&self) -> LocalsView {
        locals_view(self.variables@)
    }

    /// No known variable.
    pub fn new() -> (r: LocalVariables)
        ensures
            r@ == Seq::<(Seq<char>, TypeView)>::empty(),
            !r.in_loop,
    {
        let r = LocalVariables { variables: Vec::new(), in_loop: false };
        assert(r@ =~= Seq::<(Seq<char>, TypeView)>::empty());
        r
    }

    /// The type last given to `name`.
    pub fn get_type(&self, name: &String) -> (r: Option<Type>)
        ensures
            match r {
                Some(t) => lookup_type(self@, name@) == Some(t@),
                None => lookup_type(self@, name@) is None,
            },
    {
        let mut i: usize = self.variables.len();
        assert(self@.subrange(0, i as int) =~= self@);
        while i > 0
            invariant
                0 <= i <= self.variables.len(),
                lookup_type(self@, name@) == lookup_type(self@.subrange(0, i as int), name@),
            decreases i,
        {
            let entry = &self.variables[i - 1];
            proof {
                let s = self@.subrange(0, i as int);
                assert(s[i - 1] == self@[i - 1]);
                assert(self@[i - 1] == (entry.0@, entry.1@));
                assert(s.subrange(0, i - 1) =~= self@.subrange(0, i - 1));
            }
            if entry.0 == *name {
                return Some(entry.1.clone());
            }
            i -= 1;
        }
        None
    }

    /// A copy of these variables.
    pub fn duplicate(&self) -> (r: LocalVariables)
        ensures
            r@ == self@,
            r.in_loop == self.in_loop,
    {
        let mut r = LocalVariables { variables: Vec::new(), in_loop: self.in_loop };
        assert(r@ =~= self@.subrange(0, 0));
        let mut i: usize = 0;
        while i < self.variables.len()
            invariant
                0 <= i <= self.variables.len(),
                r@ == self@.subrange(0, i as int),
                r.in_loop == self.in_loop,
            decreases self.variables.len() - i,
        {
            r.insert(self.variables[i].0.clone(), self.variables[i].1.clone());
            assert(self@.subrange(0, i + 1) =~= self@.subrange(0, i as int).push(self@[i as int]));
            i += 1;
        }
        assert(self@.subrange(0, i as int) =~= self@);
        r
    }

    /// Gives `name` the type `t`.
    pub fn insert(&mut self, name: String, t: Type)
        ensures
            final(self)@ == old(self)@.push((name@, t@)),
            final(self).in_loop == old(self).in_loop,
    {
        self.variables.push((name, t));
        assert(self@ =~= old(self)@.push((name@, t@)));
    }

    /// These variables and the parameters `ps`.
    fn with_params(&self, ps: &Params) -> (r: LocalVariables)
        ensures
            r@ == with_params(self@, param_views(ps@)),
            !r.in_loop,
    {
        let mut r = LocalVariables::new();
        let mut i: usize = 0;
        while i < self.variables.len()
            invariant
                0 <= i <= self.variables.len(),
                r@ == self@.subrange(0, i as int),
                !r.in_loop,
            decreases self.variables.len() - i,
        {
            r.insert(self.variables[i].0.clone(), self.variables[i].1.clone());
            assert(self@.subrange(0, i + 1) =~= self@.subrange(0, i as int).push(self@[i as int]));
            i += 1;
        }
        assert(self@.subrange(0, i as int) =~= self@);
        let mut k: usize = 0;
        while k < ps.0.len()
            invariant
                0 <= k <= ps@.len(),
                r@ == self@ + Seq::new(
                    k as nat,
                    |j: int| (param_views(ps@)[j].name, param_views(ps@)[j].var_type),
                ),
                !r.in_loop,
            decreases ps@.len() - k,
        {
            let ghost before = r@;
            r.insert(ps.0[k].name.clone(), ps.0[k].var_type.clone());
            assert(r@ =~= self@ + Seq::new(
                (k + 1) as nat,
                |j: int| (param_views(ps@)[j].name, param_views(ps@)[j].var_type),
            ));
            k += 1;
        }
        assert(r@ =~= with_params(self@, param_views(ps@)));
        r
    }
}

/// Reads the trees `xs` from the first (see `build_all`).
pub fn read_all(xs: &Vec<ParseTree>, locals: &mut LocalVariables) -> (r: Result<
    (Vec<Instruction>, Vec<Type>),
    Error,
>)
    ensures
        r is Ok <==> build_all(tree_views(xs@), old(locals)@, old(locals).in_loop) is Ok,
        r matches Ok((is, ts)) ==> build_all(tree_views(xs@), old(locals)@, old(locals).in_loop) == Ok::<_, Refusal>(
            (instr_views(is@), views(ts@), final(locals)@),
        ),
        r matches Err(e) ==> (build_all(tree_views(xs@), old(locals)@, old(locals).in_loop) matches Err(
            f,
        ) && reports(e, f)),
        final(locals).in_loop == old(locals).in_loop,
    decreases xs,
{
    let ghost l0 = locals@;
    let ghost v = tree_views(xs@);
    proof {
        crate::interpreter::script::lemma_tree_views(xs@);
        assert(v.subrange(0, v.len() as int) =~= v);
        let res = build_all(v, l0, locals.in_loop);
        assert(prepend_read(Seq::empty(), Seq::empty(), res) == res) by {
            if let Ok((a, b, l)) = res {
                assert(Seq::<InstrView>::empty() + a =~= a);
                assert(Seq::<TypeView>::empty() + b =~= b);
            }
        }
    }
    let mut is: Vec<Instruction> = Vec::new();
    let mut ts: Vec<Type> = Vec::new();
    proof {
        assert(instr_views(is@) =~= Seq::<InstrView>::empty());
        assert(views(ts@) =~= Seq::<TypeView>::empty());
    }
    let mut i: usize = 0;
    while i < xs.len()
        invariant
            0 <= i <= xs.len(),
            l0 == old(locals)@,
            v == tree_views(xs@),
            v.len() == xs.len(),
            forall|j: int| 0 <= j < xs.len() ==> #[trigger] v[j] == xs@[j]@,
            locals.in_loop == old(locals).in_loop,
            build_all(v, l0, locals.in_loop) == prepend_read(
                instr_views(is@),
                views(ts@),
                build_all(v.subrange(i as int, v.len() as int), locals@, locals.in_loop),
            ),
        decreases xs.len() - i,
    {
        let ghost w = v.subrange(i as int, v.len() as int);
        let ghost li = locals@;
        let ghost is0 = is@;
        let ghost ts0 = ts@;
        proof {
            assert(w[0] == xs@[i as int]@);
            assert(w.subrange(1, w.len() as int) =~= v.subrange(i + 1, v.len() as int));
            assert(decreases_to!(xs => xs@[i as int]));
        }
        match Instruction::new_typed(&xs[i], locals) {
            Ok((x, t)) => {
                proof {
                    crate::interpreter::recreate::lemma_instr_views_push(is0, x);
                    crate::variable::var_type::lemma_views_push(ts0, t);
                    let rest = build_all(w.subrange(1, w.len() as int), locals@, locals.in_loop);
                    if let Ok((a, b, l)) = rest {
                        assert(instr_views(is0) + (seq![x@] + a) =~= instr_views(is0).push(x@) + a);
                        assert(views(ts0) + (seq![t@] + b) =~= views(ts0).push(t@) + b);
                    }
                }
                is.push(x);
                ts.push(t);
            },
            Err(e) => {
                return Err(e);
            },
        }
        i += 1;
    }
    proof {
        assert(v.subrange(xs.len() as int, v.len() as int) =~= Seq::<TreeView>::empty());
        assert(instr_views(is@) + Seq::<InstrView>::empty() =~= instr_views(is@));
        assert(views(ts@) + Seq::<TypeView>::empty() =~= views(ts@));
    }
    Ok((is, ts))
}

fn first_mismatch_exec(ts: &Vec<Type>, ps: &Vec<Type>) -> (r: Option<Type>)
    requires
        ts.len() == ps.len(),
    ensures
        match r {
            Some(t) => first_mismatch(views(ts@), views(ps@)) == Some(t@),
            None => first_mismatch(views(ts@), views(ps@)) is None,
        },
{
    let ghost a = views(ts@);
    let ghost b = views(ps@);
    proof {
        lemma_views(ts@);
        lemma_views(ps@);
        assert(a.subrange(0, a.len() as int) =~= a);
        assert(b.subrange(0, b.len() as int) =~= b);
    }
    let mut k: usize = 0;
    while k < ts.len()
        invariant
            0 <= k <= ts.len(),
            ts.len() == ps.len(),
            a == views(ts@),
            b == views(ps@),
            a.len() == ts.len(),
            b.len() == ps.len(),
            forall|j: int| 0 <= j < ts.len() ==> #[trigger] a[j] == ts@[j]@,
            forall|j: int| 0 <= j < ps.len() ==> #[trigger] b[j] == ps@[j]@,
            first_mismatch(a, b) == first_mismatch(
                a.subrange(k as int, a.len() as int),
                b.subrange(k as int, b.len() as int),
            ),
        decreases ts.len() - k,
    {
        let ghost a1 = a.subrange(k as int, a.len() as int);
        let ghost b1 = b.subrange(k as int, b.len() as int);
        proof {
            assert(a1[0] == ts@[k as int]@);
            assert(b1[0] == ps@[k as int]@);
            assert(a1.subrange(1, a1.len() as int) =~= a.subrange(k + 1, a.len() as int));
            assert(b1.subrange(1, b1.len() as int) =~= b.subrange(k + 1, b.len() as int));
        }
        if !ts[k].matches(&ps[k]) {
            return Some(ps[k].clone());
        }
        k += 1;
    }
    proof {
        assert(a.subrange(k as int, a.len() as int).len() == 0);
    }
    None
}

/// The type of a block whose instructions have the types `ts`.
fn block_type_of(ts: &Vec<Type>) -> (r: Type)
    ensures
        r@ == block_type(views(ts@)),
{
    proof {
        lemma_views(ts@);
    }
    if ts.len() == 0 {
        Type::Void
    } else {
        ts[ts.len() - 1].clone()
    }
}

fn admits_float_exec(t: &Type) -> (r: bool)
    ensures
        r == admits_float(t@),
{
    let float_array = Type::array(Type::Float);
    Type::Float.matches(t) || float_array.matches(t)
}

fn runnable_exec(lhs: &Type, rhs: &Type, op: BinOperator) -> (r: bool)
    ensures
        r == runnable(lhs@, rhs@, op),
{
    match op {
        BinOperator::Assign
        | BinOperator::AssignAdd
        | BinOperator::AssignSubtract
        | BinOperator::AssignMultiply
        | BinOperator::AssignDivide
        | BinOperator::AssignModulo
        | BinOperator::AssignLShift
        | BinOperator::AssignRShift
        | BinOperator::AssignBitwiseAnd
        | BinOperator::AssignBitwiseOr
        | BinOperator::AssignXor
        | BinOperator::AssignPow
        | BinOperator::FunctionCall => false,
        BinOperator::Lower
        | BinOperator::LowerOrEqual
        | BinOperator::Greater
        | BinOperator::GreaterOrEqual => lhs.matches(&Type::Int) && rhs.matches(&Type::Int),
        BinOperator::Add
        | BinOperator::Subtract
        | BinOperator::Multiply
        | BinOperator::Divide
        | BinOperator::Pow => !admits_float_exec(lhs) && !admits_float_exec(rhs),
        BinOperator::MapOp => {
            let any_array = Type::array(Type::Any);
            lhs.matches(&any_array)
        },
        BinOperator::At => rhs.matches(&Type::Int),
        _ => true,
    }
}

fn operation_defined(lhs: &Type, rhs: &Type, op: BinOperator) -> (r: bool)
    ensures
        r == operation_type_defined(lhs@, rhs@, op),
{
    match op {
        BinOperator::MapOp => rhs.return_type().is_some(),
        BinOperator::At => lhs.index_result().is_some(),
        BinOperator::FunctionCall => lhs.return_type().is_some(),
        BinOperator::AssignAdd
        | BinOperator::AssignSubtract
        | BinOperator::AssignMultiply
        | BinOperator::AssignDivide
        | BinOperator::AssignModulo
        | BinOperator::AssignLShift
        | BinOperator::AssignRShift
        | BinOperator::AssignBitwiseAnd
        | BinOperator::AssignBitwiseOr
        | BinOperator::AssignXor
        | BinOperator::AssignPow => match lhs {
            Type::Mut(_) => true,
            _ => false,
        },
        _ => true,
    }
}

impl Instruction {
    /// The instruction that the tree `tree` becomes on the variables known in
    /// `locals`, which gain those it sets: it is refused exactly where
    /// `build` is, with the error that reports the refusal.
    pub fn new(tree: &ParseTree, locals: &mut LocalVariables) -> (r: Result<Instruction, Error>)
        ensures
            r is Ok <==> build(tree@, old(locals)@, old(locals).in_loop) is Ok,
            r matches Ok(i) ==> (build(tree@, old(locals)@, old(locals).in_loop) matches Ok(
                (iv, _, l),
            ) && iv == i@ && l == final(locals)@),
            r matches Err(e) ==> (build(tree@, old(locals)@, old(locals).in_loop) matches Err(f)
                && reports(e, f)),
            final(locals).in_loop == old(locals).in_loop,
    {
        match Self::new_typed(tree, locals) {
            Ok((i, _)) => Ok(i),
            Err(e) => Err(e),
        }
    }

    /// [`Instruction::new`] with the type of the instruction.
    pub fn new_typed(tree: &ParseTree, locals: &mut LocalVariables) -> (r: Result<
        (Instruction, Type),
        Error,
    >)
        ensures
            r is Ok <==> build(tree@, old(locals)@, old(locals).in_loop) is Ok,
            r matches Ok((i, t)) ==> build(tree@, old(locals)@, old(locals).in_loop) == Ok::<_, Refusal>(
                (i@, t@, final(locals)@),
            ),
            r matches Err(e) ==> (build(tree@, old(locals)@, old(locals).in_loop) matches Err(f)
                && reports(e, f)),
            final(locals).in_loop == old(locals).in_loop,
        decreases tree,
    {
        match tree {
            ParseTree::Int(i) => {
                let v = Variable::Int(*i);
                assert(v@ == Value::Int(*i));
                Ok((Instruction::Variable(v), Type::Int))
            },
            ParseTree::Bool(b) => {
                let v = Variable::Bool(*b);
                assert(v@ == Value::Bool(*b));
                Ok((Instruction::Variable(v), Type::Bool))
            },
            ParseTree::Float(f) => {
                let v = Variable::Float(*f);
                assert(v@ == Value::Float(*f));
                Ok((Instruction::Variable(v), Type::Float))
            },
            ParseTree::Text(s) => match string_literal(s.as_str()) {
                Ok(v) => Ok((Instruction::Variable(v), Type::String)),
                Err(e) => Err(e),
            },
            ParseTree::Ident(n) => match locals.get_type(n) {
                Some(t) => Ok((Instruction::LocalVariable(n.clone()), t)),
                None => Err(Error::VariableDoesntExist(n.clone())),
            },
            ParseTree::Array(xs) => match read_all(xs, locals) {
                Ok((is, ts)) => {
                    let element = Array::element_type(&ts);
                    Ok((Instruction::Array(is), Type::array(element)))
                },
                Err(e) => Err(e),
            },
            ParseTree::Assignment(n, x) => {
                if let ParseTree::Function(ps, ret, _) = &**x {
                    let ft = Type::function(ps.types(), ret.clone());
                    assert(param_types(ps@) =~= Seq::new(
                        param_views(ps@).len(),
                        |k: int| param_views(ps@)[k].var_type,
                    ));
                    locals.insert(n.clone(), ft);
                }
                match Self::new_typed(x, locals) {
                Ok((i, t)) => {
                    locals.insert(n.clone(), t.clone());
                    let r = Instruction::Assign(n.clone(), Box::new(i));
                    assert(r@ == InstrView::Assign(n@, Box::new(i@)));
                    Ok((r, t))
                },
                Err(e) => Err(e),
                }
            },
            ParseTree::Call(n, args) => {
                let ft = match locals.get_type(n) {
                    Some(Type::Function(ft)) => ft,
                    Some(_) => return Err(Error::NotAFunction(n.clone())),
                    None => return Err(Error::VariableDoesntExist(n.clone())),
                };
                let (is, ts) = match read_all(args, locals) {
                    Ok(p) => p,
                    Err(e) => return Err(e),
                };
                proof {
                    lemma_views(ts@);
                    lemma_views(ft.params@);
                }
                if ts.len() != ft.params.len() {
                    return Err(Error::WrongNumberOfArguments(n.clone(), ft.params.len()));
                }
                if let Some(p) = first_mismatch_exec(&ts, &ft.params) {
                    return Err(Error::WrongType(n.clone(), p));
                }
                let callee = Instruction::LocalVariable(n.clone());
                assert(callee@ == InstrView::LocalVariable(n@));
                let i = Instruction::Call(Box::new(callee), is);
                assert(i@ == InstrView::Call(Box::new(InstrView::LocalVariable(n@)), instr_views(is@)));
                Ok((i, ft.return_type.clone()))
            },
            ParseTree::Function(ps, ret, body) => {
                let mut inner = locals.with_params(ps);
                let (is, ts) = match read_all(body, &mut inner) {
                    Ok(p) => p,
                    Err(e) => return Err(e),
                };
                proof {
                    lemma_views(ts@);
                }
                let last = if ts.len() == 0 {
                    Type::Void
                } else {
                    ts[ts.len() - 1].clone()
                };
                if !last.matches(ret) {
                    return Err(
                        Error::WrongReturn {
                            function_name: None,
                            function_return_type: ret.clone(),
                            returned: last,
                        },
                    );
                }
                let t = Type::function(ps.types(), ret.clone());
                assert(param_types(ps@) =~= Seq::new(
                    param_views(ps@).len(),
                    |k: int| param_views(ps@)[k].var_type,
                ));
                let i = Instruction::Function(ps.clone(), ret.clone(), is);
                assert(block_type(views(ts@)) == last@);
                assert(i@ == InstrView::Function(param_views(ps@), ret@, instr_views(is@)));
                Ok((i, t))
            },
            ParseTree::Infix(x, op, y) => {
                let (i1, t1) = match Self::new_typed(x, locals) {
                    Ok(p) => p,
                    Err(e) => return Err(e),
                };
                let (i2, t2) = match Self::new_typed(y, locals) {
                    Ok(p) => p,
                    Err(e) => return Err(e),
                };
                if let Err(e) = check_infix(t1.clone(), *op, t2.clone()) {
                    return Err(e);
                }
                if !operation_defined(&t1, &t2, *op) || !runnable_exec(&t1, &t2, *op) {
                    return Err(Error::CannotDo2(t1, *op, t2));
                }
                let t = operation_type(&t1, &t2, *op);
                let r = Instruction::BinOperation(Box::new(BinOperation { lhs: i1, rhs: i2, op: *op }));
                assert(r@ == InstrView::BinOperation(Box::new(i1@), *op, Box::new(i2@)));
                Ok((r, t))
            },
            ParseTree::Loop(body) => {
                let outer = locals.in_loop;
                locals.in_loop = true;
                let res = read_all(body, locals);
                locals.in_loop = outer;
                match res {
                    Ok((is, _)) => Ok((Instruction::Loop(is), Type::Void)),
                    Err(e) => Err(e),
                }
            },
            ParseTree::ArrayRepeat(v, n) => {
                let (iv, tv) = match Self::new_typed(v, locals) {
                    Ok(p) => p,
                    Err(err) => return Err(err),
                };
                let (i_n, tn) = match Self::new_typed(n, locals) {
                    Ok(p) => p,
                    Err(err) => return Err(err),
                };
                if !tn.matches(&Type::Int) {
                    let mut text = String::new();
                    push_tree_text(&mut text, n);
                    assert(Seq::<char>::empty() + tree_text(n@) =~= tree_text(n@));
                    return Err(Error::WrongLengthType(text));
                }
                let i = Instruction::ArrayRepeat(Box::new(iv), Box::new(i_n));
                assert(i@ == InstrView::ArrayRepeat(Box::new(iv@), Box::new(i_n@)));
                Ok((i, Type::array(tv)))
            },
            ParseTree::If(c, a, e) => {
                let (ic, tc) = match Self::new_typed(c, locals) {
                    Ok(p) => p,
                    Err(err) => return Err(err),
                };
                if !tc.matches(&Type::Bool) {
                    let mut text = String::new();
                    push_tree_text(&mut text, c);
                    assert(Seq::<char>::empty() + tree_text(c@) =~= tree_text(c@));
                    return Err(Error::WrongCondition(text, tc));
                }
                let mut then_locals = locals.duplicate();
                let (ia, ta) = match read_all(a, &mut then_locals) {
                    Ok(p) => p,
                    Err(err) => return Err(err),
                };
                let mut else_locals = locals.duplicate();
                let (ie, te) = match read_all(e, &mut else_locals) {
                    Ok(p) => p,
                    Err(err) => return Err(err),
                };
                let t = block_type_of(&ta).union(block_type_of(&te));
                let i = Instruction::If(Box::new(ic), ia, ie);
                assert(i@ == InstrView::If(Box::new(ic@), instr_views(ia@), instr_views(ie@)));
                Ok((i, t))
            },
            ParseTree::Break => if locals.in_loop {
                Ok((Instruction::Break, Type::Void))
            } else {
                Err(Error::BreakOutsideLoop)
            },
            ParseTree::Continue => if locals.in_loop {
                Ok((Instruction::Continue, Type::Void))
            } else {
                Err(Error::ContinueOutsideLoop)
            },
        }
    }
}

} // verus!
