use crate::bin_operator::{op_text, BinOperator};
use crate::errors::error::Error;
use crate::function::param::{param_views, ParamView};
use crate::interpreter::instruction::Instruction;
use crate::interpreter::reader::{build, reports, LocalVariables, ParseTree};
use crate::interpreter::script::{lemma_tree_views, tree_views, TreeView};
use crate::text::{decimal, push_decimal_u64};
use crate::variable::type_text::type_text;
use vstd::prelude::*;
use vstd::string::StringExecFns;

verus! {

/// The decimal text of `i`, with a minus sign when it is negative.
pub open spec fn i64_text(i: i64) -> Seq<char> {
    if i >= 0 {
        decimal(i as nat)
    } else {
        seq!['-'] + decimal((-(i as int)) as nat)
    }
}

/// `name: type` for each parameter, separated by `, `.
pub open spec fn params_text(ps: Seq<ParamView>) -> Seq<char>
    decreases ps.len(),
{
    if ps.len() == 0 {
        Seq::empty()
    } else {
        let last = ps[ps.len() - 1].name + seq![':', ' '] + type_text(ps[ps.len() - 1].var_type);
        if ps.len() == 1 {
            last
        } else {
            params_text(ps.subrange(0, ps.len() - 1)) + seq![',', ' '] + last
        }
    }
}

/// The text of a statement, written back from its tree: an operation is its
/// operands' texts with the operator between them, separated by spaces
/// (indexing is written `x[i]`); a literal, a name, an `if`, `break` and `continue`
/// are written as in a script; a float literal, whose text is not kept, is
/// written by its bit pattern.
pub open spec fn tree_text(t: TreeView) -> Seq<char>
    decreases t,
{
    match t {
        TreeView::Int(i) => i64_text(i),
        TreeView::Bool(b) => if b {
            seq!['t', 'r', 'u', 'e']
        } else {
            seq!['f', 'a', 'l', 's', 'e']
        },
        TreeView::Float(b) => seq!['f', 'l', 'o', 'a', 't', '('] + decimal(b as nat) + seq![')'],
        TreeView::Text(s) => seq!['"'] + s + seq!['"'],
        TreeView::Ident(n) => n,
        TreeView::Array(xs) => seq!['['] + trees_text(xs, seq![',', ' ']) + seq![']'],
        TreeView::ArrayRepeat(v, n) => seq!['['] + tree_text(*v) + seq![';', ' '] + tree_text(*n)
            + seq![']'],
        TreeView::Assignment(n, x) => n + seq![' ', '=', ' '] + tree_text(*x),
        TreeView::Call(n, xs) => n + seq!['('] + trees_text(xs, seq![',', ' ']) + seq![')'],
        TreeView::Function(ps, r, body) => seq!['('] + params_text(ps) + seq![
            ')',
            ' ',
            '-',
            '>',
            ' ',
        ] + type_text(r) + seq![' ', '{', ' '] + trees_text(body, seq![';', ' ']) + seq![' ', '}'],
        TreeView::Infix(x, op, y) => if op == BinOperator::At {
            tree_text(*x) + seq!['['] + tree_text(*y) + seq![']']
        } else {
            tree_text(*x) + seq![' '] + op_text(op) + seq![' '] + tree_text(*y)
        },
        TreeView::Loop(body) => seq!['l', 'o', 'o', 'p', ' ', '{', ' '] + trees_text(
            body,
            seq![';', ' '],
        ) + seq![' ', '}'],
        TreeView::If(c, a, e) => seq!['i', 'f', ' '] + tree_text(*c) + seq![' ', '{', ' ']
            + trees_text(a, seq![';', ' ']) + seq![' ', '}', ' ', 'e', 'l', 's', 'e', ' ', '{', ' ']
            + trees_text(e, seq![';', ' ']) + seq![' ', '}'],
        TreeView::Break => seq!['b', 'r', 'e', 'a', 'k'],
        TreeView::Continue => seq!['c', 'o', 'n', 't', 'i', 'n', 'u', 'e'],
    }
}

/// The texts of `xs`, separated by `sep`.
pub open spec fn trees_text(xs: Seq<TreeView>, sep: Seq<char>) -> Seq<char>
    decreases xs,
{
    if xs.len() == 0 {
        Seq::empty()
    } else if xs.len() == 1 {
        tree_text(xs[0])
    } else {
        trees_text(xs.subrange(0, xs.len() - 1), sep) + sep + tree_text(xs[xs.len() - 1])
    }
}

fn push_i64(out: &mut String, i: i64)
    ensures
        final(out)@ == old(out)@ + i64_text(i),
{
    if i >= 0 {
        push_decimal_u64(out, i as u64);
    } else {
        proof {
            reveal_strlit("-");
        }
        out.append("-");
        let m: u64 = ((-(i + 1)) as u64) + 1;
        assert(m == -(i as int));
        push_decimal_u64(out, m);
        assert(old(out)@ + i64_text(i) =~= old(out)@ + seq!['-'] + decimal(m as nat));
    }
}

fn push_params(out: &mut String, ps: &crate::function::param::Params)
    ensures
        final(out)@ == old(out)@ + params_text(param_views(ps@)),
{
    let ghost start = out@;
    let ghost v = param_views(ps@);
    proof {
        reveal_strlit(": ");
        reveal_strlit(", ");
        assert(v.subrange(0, 0) =~= Seq::<ParamView>::empty());
    }
    let mut k: usize = 0;
    while k < ps.0.len()
        invariant
            0 <= k <= ps@.len(),
            v == param_views(ps@),
            out@ == start + params_text(v.subrange(0, k as int)),
        decreases ps@.len() - k,
    {
        let ghost before = out@;
        proof {
            reveal_strlit(": ");
            reveal_strlit(", ");
        }
        if k > 0 {
            out.append(", ");
        }
        out.append(ps.0[k].name.as_str());
        out.append(": ");
        let t = ps.0[k].var_type.to_string();
        out.append(t.as_str());
        proof {
            let w = v.subrange(0, k + 1);
            assert(w.subrange(0, k as int) =~= v.subrange(0, k as int));
            assert(w[k as int] == ps@[k as int]@);
            if k == 0 {
                assert(out@ =~= start + params_text(w));
            } else {
                assert(out@ =~= start + params_text(w));
            }
        }
        k += 1;
    }
    assert(v.subrange(0, ps@.len() as int) =~= v);
}

/// Appends the text of `t` (see `tree_text`).
pub fn push_tree_text(out: &mut String, t: &ParseTree)
    ensures
        final(out)@ == old(out)@ + tree_text(t@),
    decreases t, 0nat,
{
    proof {
        reveal_strlit("float(");
        reveal_strlit(")");
        reveal_strlit("\"");
        reveal_strlit("[");
        reveal_strlit("]");
        reveal_strlit(", ");
        reveal_strlit(" = ");
        reveal_strlit("(");
        reveal_strlit(") -> ");
        reveal_strlit(" { ");
        reveal_strlit("; ");
        reveal_strlit(" }");
        reveal_strlit(" ");
        reveal_strlit("loop { ");
        reveal_strlit("break");
        reveal_strlit("continue");
        reveal_strlit("true");
        reveal_strlit("if ");
        reveal_strlit(" } else { ");
        reveal_strlit("false");
        assert(", "@ =~= seq![',', ' ']);
        assert("; "@ =~= seq![';', ' ']);
    }
    let ghost start = out@;
    match t {
        ParseTree::Int(i) => push_i64(out, *i),
        ParseTree::Bool(b) => if *b {
            out.append("true")
        } else {
            out.append("false")
        },
        ParseTree::Float(b) => {
            out.append("float(");
            push_decimal_u64(out, *b);
            out.append(")");
            assert(out@ =~= start + tree_text(t@));
        },
        ParseTree::Text(s) => {
            out.append("\"");
            out.append(s.as_str());
            out.append("\"");
            assert(out@ =~= start + tree_text(t@));
        },
        ParseTree::Ident(n) => out.append(n.as_str()),
        ParseTree::Array(xs) => {
            out.append("[");
            push_trees_text(out, xs, ", ");
            out.append("]");
            assert(out@ =~= start + tree_text(t@));
        },
        ParseTree::ArrayRepeat(v, n) => {
            out.append("[");
            push_tree_text(out, v);
            out.append("; ");
            push_tree_text(out, n);
            out.append("]");
            assert(out@ =~= start + tree_text(t@));
        },
        ParseTree::Assignment(n, x) => {
            out.append(n.as_str());
            out.append(" = ");
            push_tree_text(out, x);
            assert(out@ =~= start + tree_text(t@));
        },
        ParseTree::Call(n, xs) => {
            out.append(n.as_str());
            out.append("(");
            push_trees_text(out, xs, ", ");
            out.append(")");
            assert(out@ =~= start + tree_text(t@));
        },
        ParseTree::Function(ps, r, body) => {
            out.append("(");
            push_params(out, ps);
            out.append(") -> ");
            let rt = r.to_string();
            out.append(rt.as_str());
            out.append(" { ");
            push_trees_text(out, body, "; ");
            out.append(" }");
            assert(out@ =~= start + tree_text(t@));
        },
        ParseTree::Infix(x, op, y) => {
            push_tree_text(out, x);
            if *op == BinOperator::At {
                out.append("[");
                push_tree_text(out, y);
                out.append("]");
            } else {
                out.append(" ");
                let o = op.to_string();
                out.append(o.as_str());
                out.append(" ");
                push_tree_text(out, y);
            }
            assert(out@ =~= start + tree_text(t@));
        },
        ParseTree::Loop(body) => {
            out.append("loop { ");
            push_trees_text(out, body, "; ");
            out.append(" }");
            assert(out@ =~= start + tree_text(t@));
        },
        ParseTree::If(c, a, e) => {
            out.append("if ");
            push_tree_text(out, c);
            out.append(" { ");
            push_trees_text(out, a, "; ");
            out.append(" } else { ");
            push_trees_text(out, e, "; ");
            out.append(" }");
            assert(out@ =~= start + tree_text(t@));
        },
        ParseTree::Break => out.append("break"),
        ParseTree::Continue => out.append("continue"),
    }
}

/// Appends the texts of `xs`, separated by `sep` (see `trees_text`).
pub fn push_trees_text(out: &mut String, xs: &Vec<ParseTree>, sep: &str)
    ensures
        final(out)@ == old(out)@ + trees_text(tree_views(xs@), sep@),
    decreases xs, 1nat,
{
    let ghost start = out@;
    let ghost v = tree_views(xs@);
    proof {
        lemma_tree_views(xs@);
        assert(v.subrange(0, 0) =~= Seq::<TreeView>::empty());
    }
    let mut k: usize = 0;
    while k < xs.len()
        invariant
            0 <= k <= xs.len(),
            v == tree_views(xs@),
            v.len() == xs.len(),
            forall|j: int| 0 <= j < xs.len() ==> #[trigger] v[j] == xs@[j]@,
            out@ == start + trees_text(v.subrange(0, k as int), sep@),
        decreases xs.len() - k,
    {
        proof {
            assert(decreases_to!(xs => xs@[k as int]));
        }
        if k > 0 {
            out.append(sep);
        }
        push_tree_text(out, &xs[k]);
        proof {
            let w = v.subrange(0, k + 1);
            assert(w.subrange(0, k as int) =~= v.subrange(0, k as int));
            assert(w[k as int] == xs@[k as int]@);
            assert(out@ =~= start + trees_text(w, sep@));
        }
        k += 1;
    }
    assert(v.subrange(0, xs.len() as int) =~= v);
}

/// An instruction with the text of the statement it was read from.
#[derive(Debug)]
pub struct InstructionWithStr {
    pub instruction: Instruction,
    pub str: String,
}

impl InstructionWithStr {
    /// Reads the statement `tree` on the variables known in `locals` (see
    /// `Instruction::new`) and appends it, with its text (see `tree_text`),
    /// to `instructions`; a refused statement appends nothing and gives the
    /// error that reports the refusal.
    pub fn create(
        tree: &ParseTree,
        locals: &mut LocalVariables,
        instructions: &mut Vec<InstructionWithStr>,
    ) -> (r: Result<(), Error>)
        ensures
            r is Ok <==> build(tree@, old(locals)@, old(locals).in_loop) is Ok,
            r is Ok ==> (build(tree@, old(locals)@, old(locals).in_loop) matches Ok((iv, _, l))
                && l == final(locals)@ && final(instructions)@.len() == old(instructions)@.len() + 1
                && final(instructions)@.subrange(0, old(instructions)@.len() as int)
                == old(instructions)@ && final(instructions)@.last().instruction@ == iv
                && final(instructions)@.last().str@ == tree_text(tree@)),
            r matches Err(e) ==> (build(tree@, old(locals)@, old(locals).in_loop) matches Err(f)
                && reports(e, f) && final(instructions)@ == old(instructions)@),
            final(locals).in_loop == old(locals).in_loop,
    {
        match Instruction::new(tree, locals) {
            Ok(instruction) => {
                let mut text = String::new();
                push_tree_text(&mut text, tree);
                assert(Seq::<char>::empty() + tree_text(tree@) =~= tree_text(tree@));
                instructions.push(InstructionWithStr { instruction, str: text });
                assert(instructions@.subrange(0, old(instructions)@.len() as int)
                    =~= old(instructions)@);
                Ok(())
            },
            Err(e) => Err(e),
        }
    }
}

} // verus!
