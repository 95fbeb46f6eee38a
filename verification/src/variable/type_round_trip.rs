use crate::variable::type_parse::{
    is_letter, is_space, keyword_type, p_alts, p_items, p_single, p_type, parse_type, skip_ws,
    word_end,
};
use crate::variable::type_text::{function_text, joined, mut_text, single_text, type_text};
use crate::variable::var_type::{
    add_members, from_members, lemma_sizes, members, size, sizes, union, TypeView,
};
use vstd::prelude::*;

verus! {

/// A type in the form in which the parser gives it back: tuples have at least
/// two elements, and a union has at least two alternatives, all different,
/// none of them a union or `never`.
pub open spec fn canonical(t: TypeView) -> bool
    decreases size(t), 1nat,
{
    match t {
        TypeView::Array(x) => canonical(*x),
        TypeView::Mut(x) => canonical(*x),
        TypeView::Tuple(xs) => xs.len() >= 2 && all_canonical(xs),
        TypeView::Function(ps, r) => all_canonical(ps) && canonical(*r),
        TypeView::Multi(xs) => xs.len() >= 2 && all_canonical(xs) && xs.no_duplicates() && forall|
            i: int,
        |
            0 <= i < xs.len() ==> !(#[trigger] xs[i] is Multi) && !(xs[i] is Never),
        _ => true,
    }
}

pub open spec fn all_canonical(xs: Seq<TypeView>) -> bool
    decreases sizes(xs), 0nat,
{
    if xs.len() == 0 {
        true
    } else {
        all_canonical(xs.subrange(0, xs.len() - 1)) && canonical(xs[xs.len() - 1])
    }
}

proof fn lemma_all_canonical(xs: Seq<TypeView>)
    ensures
        all_canonical(xs) <==> forall|i: int| 0 <= i < xs.len() ==> canonical(#[trigger] xs[i]),
    decreases xs.len(),
{
    if xs.len() > 0 {
        let d = xs.subrange(0, xs.len() - 1);
        lemma_all_canonical(d);
        assert forall|i: int| 0 <= i < xs.len() - 1 implies #[trigger] xs[i] == d[i] by {}
    }
}

/// A character that can begin the text of a type.
pub open spec fn starts_type(c: char) -> bool {
    is_letter(c) || c == '(' || c == '['
}

/// Nothing at position `e` extends a word that ends there.
pub open spec fn ends_word(s: Seq<char>, e: int) -> bool {
    e == s.len() || !is_letter(s[e])
}

/// Nothing after position `e`, white space aside, adds an alternative.
pub open spec fn ends_alternatives(s: Seq<char>, e: int) -> bool {
    !(0 <= skip_ws(s, e) < s.len() && s[skip_ws(s, e)] == '|')
}

/// `s` holds `w` from position `i` on.
pub open spec fn holds(s: Seq<char>, i: int, w: Seq<char>) -> bool {
    0 <= i && i + w.len() <= s.len() && s.subrange(i, i + w.len()) == w
}

proof fn lemma_holds_char(s: Seq<char>, i: int, w: Seq<char>, k: int)
    requires
        holds(s, i, w),
        0 <= k < w.len(),
    ensures
        s[i + k] == w[k],
{
    assert(s.subrange(i, i + w.len())[k] == w[k]);
}

proof fn lemma_holds_part(s: Seq<char>, i: int, w: Seq<char>, k: int, n: int)
    requires
        holds(s, i, w),
        0 <= k,
        0 <= n,
        k + n <= w.len(),
    ensures
        holds(s, i + k, w.subrange(k, k + n)),
{
    assert forall|m: int| 0 <= m < n implies #[trigger] s.subrange(i + k, i + k + n)[m]
        == w.subrange(k, k + n)[m] by {
        lemma_holds_char(s, i, w, k + m);
    }
    assert(s.subrange(i + k, i + k + n) =~= w.subrange(k, k + n));
}

proof fn lemma_skip_ws_at(s: Seq<char>, i: int)
    requires
        0 <= i <= s.len(),
        i == s.len() || !is_space(s[i]),
    ensures
        skip_ws(s, i) == i,
{
}

proof fn lemma_word_end(s: Seq<char>, i: int, n: int)
    requires
        0 <= i,
        0 <= n,
        i + n <= s.len(),
        forall|k: int| i <= k < i + n ==> is_letter(#[trigger] s[k]),
        ends_word(s, i + n),
    ensures
        word_end(s, i) == i + n,
    decreases n,
{
    if n > 0 {
        lemma_word_end(s, i + 1, n - 1);
    }
}

/// The text of a canonical type is not empty and begins as a type does.
proof fn lemma_text_start(t: TypeView)
    requires
        canonical(t),
    ensures
        type_text(t).len() > 0,
        starts_type(type_text(t)[0]),
        single_text(t).len() > 0,
        starts_type(single_text(t)[0]),
    decreases size(t),
{
    if let TypeView::Multi(xs) = t {
        lemma_all_canonical(xs);
        lemma_sizes(xs);
        lemma_text_start(xs[0]);
        lemma_joined_start(xs, seq![' ', '|', ' ']);
    }
}

proof fn lemma_joined_start(xs: Seq<TypeView>, sep: Seq<char>)
    requires
        xs.len() > 0,
        type_text(xs[0]).len() > 0,
    ensures
        joined(xs, sep).len() > 0,
        joined(xs, sep)[0] == type_text(xs[0])[0],
    decreases xs.len(),
{
    if xs.len() > 1 {
        let d = xs.subrange(0, xs.len() - 1);
        assert(d[0] == xs[0]);
        lemma_joined_start(d, sep);
    }
}

/// The text of the first `n + 1` of a list is that of the first `n`, the
/// separator and the text of the next one.
proof fn lemma_joined_take(xs: Seq<TypeView>, sep: Seq<char>, n: int)
    requires
        1 <= n < xs.len(),
    ensures
        joined(xs.take(n + 1), sep) == joined(xs.take(n), sep) + sep + type_text(xs[n]),
{
    assert(xs.take(n + 1).subrange(0, n) =~= xs.take(n));
    assert(xs.take(n + 1)[n] == xs[n]);
}

/// The text of the first `n` of a list begins the text of the list.
proof fn lemma_joined_prefix(xs: Seq<TypeView>, sep: Seq<char>, n: int)
    requires
        1 <= n <= xs.len(),
    ensures
        joined(xs.take(n), sep).len() <= joined(xs, sep).len(),
        joined(xs, sep).subrange(0, joined(xs.take(n), sep).len() as int) == joined(xs.take(n), sep),
    decreases xs.len() - n,
{
    if n == xs.len() {
        assert(xs.take(n) =~= xs);
    } else {
        lemma_joined_prefix(xs, sep, n + 1);
        lemma_joined_take(xs, sep, n);
        let a = joined(xs.take(n), sep);
        let b = joined(xs.take(n + 1), sep);
        assert(b.subrange(0, a.len() as int) =~= a);
        assert(joined(xs, sep).subrange(0, a.len() as int) =~= b.subrange(0, a.len() as int));
    }
}

/// Adding one more alternative, new and neither a union nor `never`, to a
/// union of such alternatives appends it.
proof fn lemma_union_step(ps: Seq<TypeView>, x: TypeView)
    requires
        ps.len() as int >= 1,
        forall|i: int| 0 <= i < ps.len() as int ==> !(#[trigger] ps[i] is Multi) && !(ps[i] is Never),
        !(x is Multi),
        !(x is Never),
        !ps.contains(x),
    ensures
        union(from_members(ps), x) == from_members(ps.push(x)),
{
    if ps.len() as int == 1 {
        assert(members(from_members(ps)) =~= ps);
    }
    assert(members(x) =~= seq![x]);
    let e = seq![x].subrange(0, 0);
    assert(e =~= Seq::<TypeView>::empty());
    assert(add_members(ps, e) == ps);
    assert(seq![x][0] == x);
    assert(add_members(ps, seq![x]) == ps.push(x));
}

/// The separator between the alternatives of a union.
pub open spec fn bar() -> Seq<char> {
    seq![' ', '|', ' ']
}

/// The separator between the items of a tuple or of a parameter list.
pub open spec fn comma() -> Seq<char> {
    seq![',', ' ']
}

/// Where the text of a list holds its `n`-th item, `n >= 1`.
proof fn lemma_list_item(xs: Seq<TypeView>, sep: Seq<char>, s: Seq<char>, b: int, n: int)
    requires
        1 <= n < xs.len() as int,
        holds(s, b, joined(xs, sep)),
    ensures
        holds(s, b, joined(xs.take(n), sep)),
        holds(s, b + joined(xs.take(n), sep).len() as int, sep),
        holds(s, b + joined(xs.take(n), sep).len() as int + sep.len() as int, type_text(xs[n])),
        joined(xs.take(n + 1), sep).len() as int == joined(xs.take(n), sep).len() as int + sep.len() as int + type_text(
            xs[n],
        ).len() as int,
{
    let whole = joined(xs, sep);
    let a = joined(xs.take(n), sep);
    let c = joined(xs.take(n + 1), sep);
    lemma_joined_take(xs, sep, n);
    lemma_joined_prefix(xs, sep, n + 1);
    lemma_holds_part(s, b, whole, 0, c.len() as int);
    assert(whole.subrange(0, c.len() as int) == c);
    assert(c.subrange(0, a.len() as int) =~= a);
    assert(c.subrange(a.len() as int, a.len() as int + sep.len() as int) =~= sep);
    assert(c.subrange(a.len() as int + sep.len() as int, c.len() as int) =~= type_text(xs[n]));
    lemma_holds_part(s, b, c, 0, a.len() as int);
    lemma_holds_part(s, b, c, a.len() as int, sep.len() as int);
    lemma_holds_part(s, b, c, a.len() as int + sep.len() as int, type_text(xs[n]).len() as int);
}

/// Where the text of a list holds its first item.
proof fn lemma_list_first(xs: Seq<TypeView>, sep: Seq<char>, s: Seq<char>, b: int)
    requires
        1 <= xs.len() as int,
        holds(s, b, joined(xs, sep)),
    ensures
        holds(s, b, type_text(xs[0])),
        joined(xs.take(1), sep) == type_text(xs[0]),
{
    lemma_joined_prefix(xs, sep, 1);
    assert(xs.take(1)[0] == xs[0]);
    let a = joined(xs.take(1), sep);
    lemma_holds_part(s, b, joined(xs, sep), 0, a.len() as int);
}

/// A canonical type written at position `i`, followed by something that does
/// not continue a word, is read back as one operand.
proof fn lemma_p_single(t: TypeView, s: Seq<char>, i: int)
    requires
        canonical(t),
        holds(s, i, single_text(t)),
        ends_word(s, i + single_text(t).len()),
    ensures
        p_single(s, i) == Some((t, i + single_text(t).len())),
    decreases size(t), if t is Multi {
        3int
    } else {
        1int
    },
{
    let st = single_text(t);
    lemma_text_start(t);
    lemma_holds_char(s, i, st, 0);
    if t is Multi {
        let tt = type_text(t);
        let n = tt.len() as int;
        assert(st == seq!['('] + tt + seq![')']);
        lemma_holds_part(s, i, st, 1, n);
        assert(st.subrange(1, 1 + n) =~= tt);
        lemma_holds_char(s, i, st, 1);
        lemma_holds_char(s, i, st, 1 + n);
        lemma_skip_ws_at(s, i + 1);
        lemma_skip_ws_at(s, i + 1 + n);
        lemma_p_type(t, s, i + 1, i + 1);
    } else {
        match t {
            TypeView::Array(x) => lemma_single_array(*x, s, i),
            TypeView::Tuple(xs) => lemma_single_tuple(xs, s, i),
            TypeView::Function(ps, r) => lemma_single_function(ps, *r, s, i),
            TypeView::Mut(x) => lemma_single_mut(*x, s, i),
            TypeView::Void => {
                lemma_holds_char(s, i, st, 1);
                lemma_skip_ws_at(s, i + 1);
            },
            _ => {
                let n = st.len() as int;
                assert forall|k: int| i <= k < i + n implies is_letter(#[trigger] s[k]) by {
                    lemma_holds_char(s, i, st, k - i);
                }
                lemma_word_end(s, i, n);
                assert(s.subrange(i, i + n) == st);
            },
        }
    }
}

proof fn lemma_single_array(x: TypeView, s: Seq<char>, i: int)
    requires
        canonical(x),
        holds(s, i, type_text(TypeView::Array(Box::new(x)))),
    ensures
        p_single(s, i) == Some(
            (TypeView::Array(Box::new(x)), i + type_text(TypeView::Array(Box::new(x))).len()),
        ),
    decreases size(TypeView::Array(Box::new(x))), 0int,
{
    let tt = type_text(TypeView::Array(Box::new(x)));
    let xt = type_text(x);
    let n = xt.len() as int;
    lemma_text_start(x);
    assert(tt == seq!['['] + xt + seq![']']);
    lemma_holds_char(s, i, tt, 0);
    lemma_holds_part(s, i, tt, 1, n);
    assert(tt.subrange(1, 1 + n) =~= xt);
    lemma_holds_char(s, i, tt, 1);
    lemma_holds_char(s, i, tt, 1 + n);
    lemma_skip_ws_at(s, i + 1);
    lemma_skip_ws_at(s, i + 1 + n);
    lemma_p_type(x, s, i + 1, i + 1);
}

proof fn lemma_single_tuple(xs: Seq<TypeView>, s: Seq<char>, i: int)
    requires
        canonical(TypeView::Tuple(xs)),
        holds(s, i, type_text(TypeView::Tuple(xs))),
    ensures
        p_single(s, i) == Some((TypeView::Tuple(xs), i + type_text(TypeView::Tuple(xs)).len())),
    decreases size(TypeView::Tuple(xs)), 0int,
{
    let tt = type_text(TypeView::Tuple(xs));
    let l = joined(xs, comma());
    let n = l.len() as int;
    lemma_all_canonical(xs);
    lemma_sizes(xs);
    lemma_text_start(xs[0]);
    lemma_joined_start(xs, comma());
    assert(tt == seq!['('] + l + seq![')']);
    lemma_holds_char(s, i, tt, 0);
    lemma_holds_part(s, i, tt, 1, n);
    assert(tt.subrange(1, 1 + n) =~= l);
    lemma_holds_char(s, i, tt, 1);
    lemma_holds_char(s, i, tt, 1 + n);
    lemma_skip_ws_at(s, i + 1);
    lemma_list_first(xs, comma(), s, i + 1);
    lemma_list_item(xs, comma(), s, i + 1, 1);
    let m = type_text(xs[0]).len() as int;
    lemma_holds_char(s, i + 1 + m, comma(), 0);
    lemma_skip_ws_at(s, i + 1 + m);
    lemma_p_type(xs[0], s, i + 1, i + 1);
    lemma_p_items(xs, s, i + 1, 1);
    assert(xs.take(1) =~= seq![xs[0]]);
}

proof fn lemma_single_function(ps: Seq<TypeView>, r: TypeView, s: Seq<char>, i: int)
    requires
        canonical(TypeView::Function(ps, Box::new(r))),
        holds(s, i, type_text(TypeView::Function(ps, Box::new(r)))),
        ends_word(s, i + type_text(TypeView::Function(ps, Box::new(r))).len()),
    ensures
        p_single(s, i) == Some(
            (
                TypeView::Function(ps, Box::new(r)),
                i + type_text(TypeView::Function(ps, Box::new(r))).len(),
            ),
        ),
    decreases size(TypeView::Function(ps, Box::new(r))), 0int,
{
    let tt = type_text(TypeView::Function(ps, Box::new(r)));
    let p = joined(ps, comma());
    let pn = p.len() as int;
    let rt = single_text(r);
    let rn = rt.len() as int;
    lemma_all_canonical(ps);
    lemma_text_start(r);
    assert(tt == function_text() + seq!['('] + p + seq![')', '-', '>'] + rt);
    let j = i + 8;
    assert forall|k: int| i <= k < i + 8 implies is_letter(#[trigger] s[k]) by {
        lemma_holds_char(s, i, tt, k - i);
    }
    lemma_holds_char(s, i, tt, 8);
    lemma_word_end(s, i, 8);
    lemma_holds_part(s, i, tt, 0, 8);
    assert(tt.subrange(0, 8) =~= function_text());
    lemma_skip_ws_at(s, j);
    let k = j + 2 + pn;
    lemma_holds_part(s, i, tt, 9, pn);
    assert(tt.subrange(9, 9 + pn) =~= p);
    lemma_holds_char(s, i, tt, 9 + pn);
    lemma_holds_char(s, i, tt, 10 + pn);
    lemma_holds_char(s, i, tt, 11 + pn);
    lemma_holds_part(s, i, tt, 12 + pn, rn);
    assert(tt.subrange(12 + pn, 12 + pn + rn) =~= rt);
    lemma_holds_char(s, i, tt, 12 + pn);
    if ps.len() == 0 {
        lemma_skip_ws_at(s, j + 1);
    } else {
        lemma_sizes(ps);
        lemma_text_start(ps[0]);
        lemma_joined_start(ps, comma());
        lemma_holds_char(s, i, tt, 9);
        lemma_skip_ws_at(s, j + 1);
        lemma_p_items(ps, s, j + 1, 0);
        assert(ps.take(0) =~= Seq::<TypeView>::empty());
    }
    lemma_skip_ws_at(s, k);
    lemma_skip_ws_at(s, k + 2);
    lemma_p_single(r, s, k + 2);
    assert(keyword_type(s.subrange(i, j)) is None);
    let params = if 0 <= skip_ws(s, j + 1) < s.len() && s[skip_ws(s, j + 1)] == ')' {
        Some((Seq::<TypeView>::empty(), skip_ws(s, j + 1) + 1))
    } else {
        p_items(s, j + 1, Seq::empty())
    };
    assert(params == Some((ps, k)));
}

proof fn lemma_single_mut(x: TypeView, s: Seq<char>, i: int)
    requires
        canonical(x),
        holds(s, i, type_text(TypeView::Mut(Box::new(x)))),
        ends_word(s, i + type_text(TypeView::Mut(Box::new(x))).len()),
    ensures
        p_single(s, i) == Some(
            (TypeView::Mut(Box::new(x)), i + type_text(TypeView::Mut(Box::new(x))).len()),
        ),
    decreases size(TypeView::Mut(Box::new(x))), 0int,
{
    let tt = type_text(TypeView::Mut(Box::new(x)));
    let xt = single_text(x);
    let n = xt.len() as int;
    lemma_text_start(x);
    assert(tt == mut_text() + seq![' '] + xt);
    assert forall|k: int| i <= k < i + 3 implies is_letter(#[trigger] s[k]) by {
        lemma_holds_char(s, i, tt, k - i);
    }
    lemma_holds_char(s, i, tt, 3);
    lemma_holds_char(s, i, tt, 4);
    lemma_word_end(s, i, 3);
    lemma_holds_part(s, i, tt, 0, 3);
    assert(tt.subrange(0, 3) =~= mut_text());
    lemma_holds_part(s, i, tt, 4, n);
    assert(tt.subrange(4, 4 + n) =~= xt);
    lemma_skip_ws_at(s, i + 4);
    lemma_p_single(x, s, i + 4);
}

/// A canonical type written at position `j`, reached from `i` over white
/// space and followed by neither a letter nor a further alternative, is read
/// back whole.
proof fn lemma_p_type(t: TypeView, s: Seq<char>, i: int, j: int)
    requires
        canonical(t),
        0 <= i <= j,
        skip_ws(s, i) == j,
        holds(s, j, type_text(t)),
        ends_word(s, j + type_text(t).len() as int),
        ends_alternatives(s, j + type_text(t).len() as int),
    ensures
        p_type(s, i) == Some((t, j + type_text(t).len() as int)),
    decreases size(t), 2int,
{
    lemma_text_start(t);
    if let TypeView::Multi(xs) = t {
        lemma_all_canonical(xs);
        lemma_sizes(xs);
        lemma_list_first(xs, bar(), s, j);
        lemma_list_item(xs, bar(), s, j, 1);
        let x0 = type_text(xs[0]);
        lemma_holds_char(s, j + x0.len() as int, bar(), 0);
        lemma_p_single(xs[0], s, j);
        lemma_p_alts(xs, s, j, 1);
        assert(xs.take(1) =~= seq![xs[0]]);
    } else {
        lemma_p_single(t, s, j);
    }
}

/// The alternatives of a canonical union after the first `n` are read back
/// one by one.
proof fn lemma_p_alts(xs: Seq<TypeView>, s: Seq<char>, j: int, n: int)
    requires
        canonical(TypeView::Multi(xs)),
        1 <= n <= xs.len() as int,
        holds(s, j, joined(xs, bar())),
        ends_word(s, j + joined(xs, bar()).len() as int),
        ends_alternatives(s, j + joined(xs, bar()).len() as int),
    ensures
        p_alts(s, j + joined(xs.take(n), bar()).len() as int, from_members(xs.take(n))) == Some(
            (from_members(xs), j + joined(xs, bar()).len() as int),
        ),
    decreases sizes(xs), xs.len() as int - n,
{
    lemma_all_canonical(xs);
    lemma_sizes(xs);
    if n == xs.len() as int {
        assert(xs.take(n) =~= xs);
    } else {
        let p = j + joined(xs.take(n), bar()).len() as int;
        lemma_list_item(xs, bar(), s, j, n);
        lemma_holds_char(s, p, bar(), 0);
        lemma_holds_char(s, p, bar(), 1);
        lemma_holds_char(s, p, bar(), 2);
        lemma_text_start(xs[n]);
        lemma_holds_char(s, p + 3, type_text(xs[n]), 0);
        lemma_skip_ws_at(s, p + 1);
        lemma_skip_ws_at(s, p + 3);
        let m = p + 3 + type_text(xs[n]).len() as int;
        if n + 1 < xs.len() as int {
            lemma_list_item(xs, bar(), s, j, n + 1);
            lemma_holds_char(s, m, bar(), 0);
        } else {
            assert(xs.take(n + 1) =~= xs);
        }
        lemma_p_single(xs[n], s, p + 3);
        assert forall|k: int| 0 <= k < n implies #[trigger] xs.take(n)[k] != xs[n] by {
            assert(xs.take(n)[k] == xs[k]);
        }
        assert forall|k: int|
            0 <= k < xs.take(n).len() as int implies !(#[trigger] xs.take(n)[k] is Multi) && !(
            xs.take(n)[k] is Never) by {
            assert(xs.take(n)[k] == xs[k]);
        }
        lemma_union_step(xs.take(n), xs[n]);
        assert(xs.take(n).push(xs[n]) =~= xs.take(n + 1));
        lemma_p_alts(xs, s, j, n + 1);
    }
}

/// The items of a list of canonical types, from the `n`-th on, closed by `)`,
/// are read back one by one.
proof fn lemma_p_items(xs: Seq<TypeView>, s: Seq<char>, b: int, n: int)
    requires
        all_canonical(xs),
        0 <= n < xs.len() as int,
        holds(s, b, joined(xs, comma())),
        b + (joined(xs, comma()).len() as int) < s.len(),
        s[b + joined(xs, comma()).len() as int] == ')',
    ensures
        p_items(
            s,
            if n == 0 {
                b
            } else {
                b + joined(xs.take(n), comma()).len() as int + 1
            },
            xs.take(n),
        ) == Some((xs, b + joined(xs, comma()).len() as int + 1)),
    decreases sizes(xs), xs.len() as int - n,
{
    lemma_all_canonical(xs);
    lemma_sizes(xs);
    let l = joined(xs, comma());
    let q = if n == 0 {
        b
    } else {
        b + joined(xs.take(n), comma()).len() as int + 1
    };
    let start = if n == 0 {
        b
    } else {
        b + joined(xs.take(n), comma()).len() as int + 2
    };
    lemma_text_start(xs[n]);
    if n == 0 {
        lemma_list_first(xs, comma(), s, b);
        lemma_holds_char(s, b, type_text(xs[0]), 0);
        lemma_skip_ws_at(s, b);
    } else {
        lemma_list_item(xs, comma(), s, b, n);
        lemma_holds_char(s, q - 1, comma(), 0);
        lemma_holds_char(s, q - 1, comma(), 1);
        lemma_holds_char(s, start, type_text(xs[n]), 0);
        lemma_skip_ws_at(s, start);
    }
    let e = start + type_text(xs[n]).len() as int;
    assert(e == b + joined(xs.take(n + 1), comma()).len() as int) by {
        if n == 0 {
            lemma_list_first(xs, comma(), s, b);
        }
    }
    if n + 1 < xs.len() as int {
        lemma_list_item(xs, comma(), s, b, n + 1);
        lemma_holds_char(s, e, comma(), 0);
    } else {
        assert(xs.take(n + 1) =~= xs);
    }
    lemma_skip_ws_at(s, e);
    lemma_p_type(xs[n], s, q, start);
    assert(xs.take(n).push(xs[n]) =~= xs.take(n + 1));
    if n + 1 < xs.len() as int {
        lemma_p_items(xs, s, b, n + 1);
    }
}

/// Reading back the text of a canonical type gives the type.
pub proof fn lemma_parse_type_text(t: TypeView)
    requires
        canonical(t),
    ensures
        parse_type(type_text(t)) == Some(t),
{
    let s = type_text(t);
    lemma_text_start(t);
    assert(s.subrange(0, s.len() as int) =~= s);
    lemma_skip_ws_at(s, 0);
    lemma_skip_ws_at(s, s.len() as int);
    lemma_p_type(t, s, 0, 0);
}

/// The alternatives of a canonical type: canonical, all different, none of
/// them a union or `never`.
pub open spec fn good_members(ms: Seq<TypeView>) -> bool {
    &&& ms.no_duplicates()
    &&& forall|i: int|
        0 <= i < ms.len() ==> canonical(#[trigger] ms[i]) && !(ms[i] is Multi) && !(ms[i] is Never)
}

proof fn lemma_members_good(t: TypeView)
    requires
        canonical(t),
    ensures
        good_members(members(t)),
{
    if let TypeView::Multi(xs) = t {
        lemma_all_canonical(xs);
    }
}

proof fn lemma_add_members_good(ms: Seq<TypeView>, ts: Seq<TypeView>)
    requires
        good_members(ms),
        good_members(ts),
    ensures
        good_members(add_members(ms, ts)),
    decreases ts.len(),
{
    if ts.len() > 0 {
        let d = ts.subrange(0, ts.len() - 1);
        assert forall|i: int, j: int| 0 <= i < j < d.len() implies d[i] != d[j] by {
            assert(d[i] == ts[i] && d[j] == ts[j]);
        }
        assert forall|i: int| 0 <= i < d.len() implies canonical(#[trigger] d[i]) && !(d[i] is Multi)
            && !(d[i] is Never) by {
            assert(d[i] == ts[i]);
        }
        lemma_add_members_good(ms, d);
        let init = add_members(ms, d);
        let t = ts[ts.len() - 1];
        if !init.contains(t) {
            let r = init.push(t);
            assert forall|i: int, j: int| 0 <= i < j < r.len() implies r[i] != r[j] by {
                if j == init.len() {
                    assert(r[i] == init[i]);
                } else {
                    assert(r[i] == init[i] && r[j] == init[j]);
                }
            }
            assert forall|i: int| 0 <= i < r.len() implies canonical(#[trigger] r[i]) && !(
            r[i] is Multi) && !(r[i] is Never) by {
                if i < init.len() {
                    assert(r[i] == init[i]);
                }
            }
        }
    }
}

proof fn lemma_from_members_canonical(ms: Seq<TypeView>)
    requires
        good_members(ms),
    ensures
        canonical(from_members(ms)),
{
    if ms.len() >= 2 {
        lemma_all_canonical(ms);
    }
}

/// The union of two canonical types is canonical.
pub proof fn lemma_union_canonical(a: TypeView, b: TypeView)
    requires
        canonical(a),
        canonical(b),
    ensures
        canonical(union(a, b)),
{
    lemma_members_good(a);
    lemma_members_good(b);
    lemma_add_members_good(members(a), members(b));
    lemma_from_members_canonical(add_members(members(a), members(b)));
}

proof fn lemma_p_type_canonical(s: Seq<char>, i: int)
    ensures
        match p_type(s, i) {
            Some((t, _)) => canonical(t),
            None => true,
        },
    decreases s.len() - i, 2int,
{
    let j0 = skip_ws(s, i);
    if i <= j0 <= s.len() {
        lemma_p_single_canonical(s, j0);
        if let Some((t, j)) = p_single(s, j0) {
            if i < j <= s.len() {
                lemma_p_alts_canonical(s, j, t);
            }
        }
    }
}

proof fn lemma_p_alts_canonical(s: Seq<char>, j: int, acc: TypeView)
    requires
        canonical(acc),
    ensures
        match p_alts(s, j, acc) {
            Some((t, _)) => canonical(t),
            None => true,
        },
    decreases s.len() - j, 0int,
{
    let k = skip_ws(s, j);
    if 0 <= k < s.len() && s[k] == '|' {
        let k1 = skip_ws(s, k + 1);
        if j < k1 <= s.len() {
            lemma_p_single_canonical(s, k1);
            if let Some((t, m)) = p_single(s, k1) {
                if j < m <= s.len() {
                    lemma_union_canonical(acc, t);
                    lemma_p_alts_canonical(s, m, union(acc, t));
                }
            }
        }
    }
}

proof fn lemma_p_single_canonical(s: Seq<char>, i: int)
    ensures
        match p_single(s, i) {
            Some((t, _)) => canonical(t),
            None => true,
        },
    decreases s.len() - i, 1int,
{
    if 0 <= i < s.len() {
        if s[i] == '(' {
            lemma_p_type_canonical(s, i + 1);
            if let Some((t, k)) = p_type(s, i + 1) {
                let k2 = skip_ws(s, k);
                if 0 <= k2 < s.len() && s[k2] == ',' && i < k2 + 1 {
                    lemma_all_canonical(seq![t]);
                    lemma_p_items_canonical(s, k2 + 1, seq![t]);
                }
            }
        } else if s[i] == '[' {
            lemma_p_type_canonical(s, i + 1);
            assert(canonical(TypeView::Never));
        } else if is_letter(s[i]) {
            let e = word_end(s, i);
            let w = s.subrange(i, e);
            let j = skip_ws(s, e);
            if w == mut_text() {
                if i < j <= s.len() {
                    lemma_p_single_canonical(s, j);
                }
            } else if w == function_text() {
                if 0 <= j < s.len() && s[j] == '(' && i < j + 1 {
                    lemma_all_canonical(Seq::<TypeView>::empty());
                    lemma_p_items_canonical(s, j + 1, Seq::empty());
                    let j1 = skip_ws(s, j + 1);
                    let params = if 0 <= j1 < s.len() && s[j1] == ')' {
                        Some((Seq::<TypeView>::empty(), j1 + 1))
                    } else {
                        p_items(s, j + 1, Seq::empty())
                    };
                    if let Some((ps, k)) = params {
                        let a = skip_ws(s, k);
                        let b = skip_ws(s, a + 2);
                        if i < b <= s.len() {
                            lemma_p_single_canonical(s, b);
                        }
                    }
                }
            }
        }
    }
}

proof fn lemma_p_items_canonical(s: Seq<char>, i: int, acc: Seq<TypeView>)
    requires
        all_canonical(acc),
    ensures
        match p_items(s, i, acc) {
            Some((ts, _)) => all_canonical(ts) && ts.len() > acc.len(),
            None => true,
        },
    decreases s.len() - i, 3int,
{
    lemma_p_type_canonical(s, i);
    if let Some((t, k)) = p_type(s, i) {
        lemma_all_canonical(acc);
        lemma_all_canonical(acc.push(t));
        assert forall|m: int| 0 <= m < acc.push(t).len() implies canonical(
            #[trigger] acc.push(t)[m],
        ) by {
            if m < acc.len() {
                assert(acc.push(t)[m] == acc[m]);
            }
        }
        let k2 = skip_ws(s, k);
        if 0 <= k2 < s.len() && s[k2] == ',' && k2 + 1 > i {
            lemma_p_items_canonical(s, k2 + 1, acc.push(t));
        }
    }
}

/// A type read from a text is written in a form that reads back as the same
/// type.
pub proof fn lemma_parse_print_parse(s: Seq<char>, t: TypeView)
    requires
        parse_type(s) == Some(t),
    ensures
        parse_type(type_text(t)) == Some(t),
{
    lemma_p_type_canonical(s, 0);
    lemma_parse_type_text(t);
}

} // verus!
