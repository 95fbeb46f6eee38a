use crate::variable::var_type::{lemma_views, size, sizes, lemma_sizes, views, Type, TypeView};
use vstd::prelude::*;
use vstd::string::StringExecFns;

verus! {

pub open spec fn int_text() -> Seq<char> {
    seq!['i', 'n', 't']
}

pub open spec fn float_text() -> Seq<char> {
    seq!['f', 'l', 'o', 'a', 't']
}

pub open spec fn bool_text() -> Seq<char> {
    seq!['b', 'o', 'o', 'l']
}

pub open spec fn string_text() -> Seq<char> {
    seq!['s', 't', 'r', 'i', 'n', 'g']
}

pub open spec fn any_text() -> Seq<char> {
    seq!['a', 'n', 'y']
}

pub open spec fn never_text() -> Seq<char> {
    seq!['n', 'e', 'v', 'e', 'r']
}

pub open spec fn mut_text() -> Seq<char> {
    seq!['m', 'u', 't']
}

pub open spec fn function_text() -> Seq<char> {
    seq!['f', 'u', 'n', 'c', 't', 'i', 'o', 'n']
}

/// How a type is written: `int`, `float`, `bool`, `string`, `()`, `any`,
/// `never`, `[T]`, `(T1, T2)`, `function(T1, T2)->R`, `T1 | T2`, `mut T`.
/// A union that stands as the result of a function type or after `mut` is
/// put in parentheses.
pub open spec fn type_text(t: TypeView) -> Seq<char>
    decreases size(t), 1nat,
{
    match t {
        TypeView::Int => int_text(),
        TypeView::Float => float_text(),
        TypeView::Bool => bool_text(),
        TypeView::String => string_text(),
        TypeView::Void => seq!['(', ')'],
        TypeView::Any => any_text(),
        TypeView::Never => never_text(),
        TypeView::Array(x) => seq!['['] + type_text(*x) + seq![']'],
        TypeView::Tuple(xs) => seq!['('] + joined(xs, seq![',', ' ']) + seq![')'],
        TypeView::Function(ps, r) => function_text() + seq!['('] + joined(ps, seq![',', ' '])
            + seq![')', '-', '>'] + single_text(*r),
        TypeView::Multi(xs) => joined(xs, seq![' ', '|', ' ']),
        TypeView::Mut(x) => mut_text() + seq![' '] + single_text(*x),
    }
}

/// A type written so that it can stand as one operand: a union in parentheses.
pub open spec fn single_text(t: TypeView) -> Seq<char>
    decreases size(t), 2nat,
{
    if t is Multi {
        seq!['('] + type_text(t) + seq![')']
    } else {
        type_text(t)
    }
}

/// The texts of `xs` separated by `sep`.
pub open spec fn joined(xs: Seq<TypeView>, sep: Seq<char>) -> Seq<char>
    decreases sizes(xs), 0nat,
{
    if xs.len() == 0 {
        Seq::empty()
    } else if xs.len() == 1 {
        type_text(xs[0])
    } else {
        joined(xs.subrange(0, xs.len() - 1), sep) + sep + type_text(xs[xs.len() - 1])
    }
}


/// The text of a string literal, as a `String`.
fn text(s: &str) -> (r: String)
    ensures
        r@ == s@,
{
    String::from_str(s)
}

fn joined_string(xs: &Vec<Type>, sep: &str) -> (r: String)
    ensures
        r@ == joined(views(xs@), sep@),
    decreases sizes(views(xs@)), 0nat,
{
    proof {
        lemma_views(xs@);
    }
    let mut out = String::new();
    if xs.len() == 0 {
        return out;
    }
    proof {
        lemma_sizes(views(xs@));
        assert(views(xs@).take(1) =~= seq![xs@[0]@]);
        assert(size(views(xs@)[0]) < sizes(views(xs@)));
    }
    let first = xs[0].to_string();
    out.append(first.as_str());
    let mut i: usize = 1;
    while i < xs.len()
        invariant
            1 <= i <= xs.len(),
            views(xs@).len() == xs.len(),
            forall|j: int| 0 <= j < xs.len() ==> #[trigger] views(xs@)[j] == xs@[j]@,
            forall|j: int|
                0 <= j < xs.len() ==> size(#[trigger] views(xs@)[j]) < sizes(views(xs@)),
            out@ == joined(views(xs@).take(i as int), sep@),
        decreases xs.len() - i,
    {
        proof {
            assert(views(xs@).take(i + 1).subrange(0, i as int) =~= views(xs@).take(i as int));
            assert(views(xs@).take(i + 1)[i as int] == xs@[i as int]@);
        }
        out.append(sep);
        let next = xs[i].to_string();
        out.append(next.as_str());
        i += 1;
    }
    proof {
        assert(views(xs@).take(xs.len() as int) =~= views(xs@));
    }
    out
}

fn single_string(t: &Type) -> (r: String)
    ensures
        r@ == single_text(t@),
    decreases size(t@), 2nat,
{
    if let Type::Multi(_) = t {
        let mut out = text("(");
        let inner = t.to_string();
        out.append(inner.as_str());
        out.append(")");
        proof {
            reveal_strlit("(");
            reveal_strlit(")");
        }
        out
    } else {
        t.to_string()
    }
}

impl Type {
    /// How this type is written (see `type_text`).
    pub fn to_string(&self) -> (r: String)
        ensures
            r@ == type_text(self@),
        decreases size(self@), 1nat,
    {
        proof {
            reveal_strlit("int");
            reveal_strlit("float");
            reveal_strlit("bool");
            reveal_strlit("string");
            reveal_strlit("()");
            reveal_strlit("any");
            reveal_strlit("never");
            reveal_strlit("[");
            reveal_strlit("]");
            reveal_strlit("(");
            reveal_strlit(")");
            reveal_strlit(", ");
            reveal_strlit(" | ");
            reveal_strlit("function(");
            reveal_strlit(")->");
            reveal_strlit("mut ");
            assert("int"@ =~= int_text());
            assert("float"@ =~= float_text());
            assert("bool"@ =~= bool_text());
            assert("string"@ =~= string_text());
            assert("()"@ =~= seq!['(', ')']);
            assert("any"@ =~= any_text());
            assert("never"@ =~= never_text());
            assert("["@ =~= seq!['[']);
            assert("]"@ =~= seq![']']);
            assert("("@ =~= seq!['(']);
            assert(")"@ =~= seq![')']);
            assert(", "@ =~= seq![',', ' ']);
            assert(" | "@ =~= seq![' ', '|', ' ']);
            assert(")->"@ =~= seq![')', '-', '>']);
        }
        match self {
            Type::Int => text("int"),
            Type::Float => text("float"),
            Type::Bool => text("bool"),
            Type::String => text("string"),
            Type::Void => text("()"),
            Type::Any => text("any"),
            Type::Never => text("never"),
            Type::Array(x) => {
                let mut out = text("[");
                let inner = x.to_string();
                out.append(inner.as_str());
                out.append("]");
                out
            },
            Type::Tuple(xs) => {
                let mut out = text("(");
                let inner = joined_string(xs, ", ");
                out.append(inner.as_str());
                out.append(")");
                out
            },
            Type::Function(f) => {
                let mut out = text("function(");
                let params = joined_string(&f.params, ", ");
                out.append(params.as_str());
                out.append(")->");
                let ret = single_string(&f.return_type);
                out.append(ret.as_str());
                proof {
                    assert(function_text() + seq!['('] =~= "function("@);
                }
                out
            },
            Type::Multi(xs) => joined_string(xs, " | "),
            Type::Mut(x) => {
                let mut out = text("mut ");
                let inner = single_string(x);
                out.append(inner.as_str());
                proof {
                    assert(mut_text() + seq![' '] =~= "mut "@);
                }
                out
            },
        }
    }
}

} // verus!
