use vstd::prelude::*;

verus! {

/// The type of a SimpleSL value.
#[derive(Debug, PartialEq, Eq)]
pub enum Type {
    Int,
    Float,
    Bool,
    String,
    Void,
    Any,
    Never,
    Array(Box<Type>),
    Tuple(Vec<Type>),
    Function(Box<FunctionType>),
    Multi(Vec<Type>),
    Mut(Box<Type>),
}

/// The type of a function: the types of its parameters and of its result.
#[derive(Debug, PartialEq, Eq)]
pub struct FunctionType {
    pub params: Vec<Type>,
    pub return_type: Type,
}

/// Mathematical model of a [`Type`].
pub enum TypeView {
    Int,
    Float,
    Bool,
    String,
    Void,
    Any,
    Never,
    Array(Box<TypeView>),
    Tuple(Seq<TypeView>),
    Function(Seq<TypeView>, Box<TypeView>),
    Multi(Seq<TypeView>),
    Mut(Box<TypeView>),
}

impl Type {
    pub open spec fn view(&self) -> TypeView
        decreases self,
    {
        match self {
            Type::Int => TypeView::Int,
            Type::Float => TypeView::Float,
            Type::Bool => TypeView::Bool,
            Type::String => TypeView::String,
            Type::Void => TypeView::Void,
            Type::Any => TypeView::Any,
            Type::Never => TypeView::Never,
            Type::Array(t) => TypeView::Array(Box::new(t.view())),
            Type::Tuple(ts) => TypeView::Tuple(views(ts@)),
            Type::Function(f) => TypeView::Function(views(f.params@), Box::new(f.return_type.view())),
            Type::Multi(ts) => TypeView::Multi(views(ts@)),
            Type::Mut(t) => TypeView::Mut(Box::new(t.view())),
        }
    }
}

/// The models of a sequence of types.
pub open spec fn views(s: Seq<Type>) -> Seq<TypeView>
    decreases s,
{
    if s.len() == 0 {
        Seq::empty()
    } else {
        views(s.subrange(0, s.len() - 1)).push(s[s.len() - 1].view())
    }
}

pub proof fn lemma_views(s: Seq<Type>)
    ensures
        views(s).len() == s.len(),
        forall|i: int| 0 <= i < s.len() ==> #[trigger] views(s)[i] == s[i]@,
    decreases s.len(),
{
    if s.len() > 0 {
        lemma_views(s.subrange(0, s.len() - 1));
    }
}

/// Number of constructors in a type; measures recursion over types.
pub open spec fn size(t: TypeView) -> nat
    decreases t,
{
    match t {
        TypeView::Array(x) => 1 + size(*x),
        TypeView::Tuple(xs) => 1 + sizes(xs),
        TypeView::Function(ps, r) => 1 + sizes(ps) + size(*r),
        TypeView::Multi(xs) => 1 + sizes(xs),
        TypeView::Mut(x) => 1 + size(*x),
        _ => 1,
    }
}

pub open spec fn sizes(s: Seq<TypeView>) -> nat
    decreases s,
{
    if s.len() == 0 {
        0
    } else {
        sizes(s.subrange(0, s.len() - 1)) + size(s[s.len() - 1]) + 1
    }
}

pub proof fn lemma_sizes(s: Seq<TypeView>)
    ensures
        forall|i: int| 0 <= i < s.len() ==> size(#[trigger] s[i]) < sizes(s),
    decreases s.len(),
{
    if s.len() > 0 {
        let d = s.subrange(0, s.len() - 1);
        lemma_sizes(d);
        assert forall|i: int| 0 <= i < s.len() implies size(#[trigger] s[i]) < sizes(s) by {
            if i < s.len() - 1 {
                assert(s[i] == d[i]);
            }
        }
    }
}

/// `a.matches(b)`: every value of type `a` is a value of type `b`.
pub open spec fn type_matches(a: TypeView, b: TypeView) -> bool
    decreases size(a) + size(b),
{
    if b is Any {
        true
    } else if a is Never {
        true
    } else if let TypeView::Multi(xs) = a {
        all_match(xs, b)
    } else if let TypeView::Multi(ys) = b {
        any_match(a, ys)
    } else {
        match (a, b) {
            (TypeView::Function(p1, r1), TypeView::Function(p2, r2)) => type_matches(*r1, *r2)
                && pairwise(p2, p1),
            (TypeView::Array(x), TypeView::Array(y)) => type_matches(*x, *y),
            (TypeView::Tuple(xs), TypeView::Tuple(ys)) => pairwise(xs, ys),
            _ => a == b,
        }
    }
}

/// Every type of `xs` matches `b`.
pub open spec fn all_match(xs: Seq<TypeView>, b: TypeView) -> bool
    decreases sizes(xs) + size(b),
{
    if xs.len() == 0 {
        true
    } else {
        all_match(xs.subrange(0, xs.len() - 1), b) && type_matches(xs[xs.len() - 1], b)
    }
}

/// `a` matches some type of `ys`.
pub open spec fn any_match(a: TypeView, ys: Seq<TypeView>) -> bool
    decreases size(a) + sizes(ys),
{
    if ys.len() == 0 {
        false
    } else {
        any_match(a, ys.subrange(0, ys.len() - 1)) || type_matches(a, ys[ys.len() - 1])
    }
}

/// `xs` and `ys` have equal lengths and each `xs[i]` matches `ys[i]`.
pub open spec fn pairwise(xs: Seq<TypeView>, ys: Seq<TypeView>) -> bool
    decreases sizes(xs) + sizes(ys),
{
    if xs.len() != ys.len() {
        false
    } else if xs.len() == 0 {
        true
    } else {
        pairwise(xs.subrange(0, xs.len() - 1), ys.subrange(0, ys.len() - 1)) && type_matches(
            xs[xs.len() - 1],
            ys[ys.len() - 1],
        )
    }
}


pub proof fn lemma_all_match(xs: Seq<TypeView>, b: TypeView)
    ensures
        all_match(xs, b) <==> forall|i: int| 0 <= i < xs.len() ==> type_matches(#[trigger] xs[i], b),
    decreases xs.len(),
{
    if xs.len() > 0 {
        let d = xs.subrange(0, xs.len() - 1);
        lemma_all_match(d, b);
        assert forall|i: int| 0 <= i < xs.len() - 1 implies #[trigger] xs[i] == d[i] by {}
    }
}

pub proof fn lemma_any_match(a: TypeView, ys: Seq<TypeView>)
    ensures
        any_match(a, ys) <==> exists|j: int| 0 <= j < ys.len() && type_matches(a, #[trigger] ys[j]),
    decreases ys.len(),
{
    if ys.len() > 0 {
        let d = ys.subrange(0, ys.len() - 1);
        lemma_any_match(a, d);
        assert forall|j: int| 0 <= j < ys.len() - 1 implies #[trigger] ys[j] == d[j] by {}
        if any_match(a, d) {
            let j = choose|j: int| 0 <= j < d.len() && type_matches(a, #[trigger] d[j]);
            assert(ys[j] == d[j]);
        }
    }
}

pub proof fn lemma_pairwise(xs: Seq<TypeView>, ys: Seq<TypeView>)
    ensures
        pairwise(xs, ys) <==> xs.len() == ys.len() && forall|i: int|
            0 <= i < xs.len() ==> type_matches(#[trigger] xs[i], ys[i]),
    decreases xs.len(),
{
    if xs.len() == ys.len() && xs.len() > 0 {
        let dx = xs.subrange(0, xs.len() - 1);
        let dy = ys.subrange(0, ys.len() - 1);
        lemma_pairwise(dx, dy);
        assert forall|i: int| 0 <= i < xs.len() - 1 implies #[trigger] xs[i] == dx[i] && ys[i]
            == dy[i] by {}
    }
}

/// A type that matches a member of a union matches the union.
pub proof fn lemma_matches_multi(x: TypeView, t: TypeView, ms: Seq<TypeView>)
    requires
        type_matches(x, t),
        ms.contains(t),
    ensures
        type_matches(x, TypeView::Multi(ms)),
    decreases size(x),
{
    let j = choose|j: int| 0 <= j < ms.len() && ms[j] == t;
    if x is Never {
    } else if let TypeView::Multi(zs) = x {
        lemma_sizes(zs);
        lemma_all_match(zs, TypeView::Multi(ms));
        if t is Any {
            assert forall|i: int| 0 <= i < zs.len() implies type_matches(
                #[trigger] zs[i],
                TypeView::Multi(ms),
            ) by {
                lemma_matches_multi(zs[i], t, ms);
            }
        } else {
            lemma_all_match(zs, t);
            assert forall|i: int| 0 <= i < zs.len() implies type_matches(
                #[trigger] zs[i],
                TypeView::Multi(ms),
            ) by {
                lemma_matches_multi(zs[i], t, ms);
            }
        }
    } else {
        lemma_any_match(x, ms);
        assert(type_matches(x, ms[j]));
    }
}

/// Every type matches itself.
pub proof fn lemma_matches_reflexive(t: TypeView)
    ensures
        type_matches(t, t),
    decreases size(t),
{
    match t {
        TypeView::Multi(xs) => {
            lemma_sizes(xs);
            lemma_all_match(xs, t);
            assert forall|i: int| 0 <= i < xs.len() implies type_matches(#[trigger] xs[i], t) by {
                lemma_matches_reflexive(xs[i]);
                assert(xs.contains(xs[i]));
                lemma_matches_multi(xs[i], xs[i], xs);
            }
        },
        TypeView::Function(ps, r) => {
            lemma_sizes(ps);
            lemma_matches_reflexive(*r);
            assert forall|i: int| 0 <= i < ps.len() implies type_matches(#[trigger] ps[i], ps[i]) by {
                lemma_matches_reflexive(ps[i]);
            }
            lemma_pairwise(ps, ps);
        },
        TypeView::Tuple(xs) => {
            lemma_sizes(xs);
            assert forall|i: int| 0 <= i < xs.len() implies type_matches(#[trigger] xs[i], xs[i]) by {
                lemma_matches_reflexive(xs[i]);
            }
            lemma_pairwise(xs, xs);
        },
        TypeView::Array(x) => {
            lemma_matches_reflexive(*x);
        },
        _ => {},
    }
}


/// Matching is transitive: a type that matches a second one matches every type
/// that the second one matches.
pub proof fn lemma_matches_transitive(a: TypeView, b: TypeView, c: TypeView)
    requires
        type_matches(a, b),
        type_matches(b, c),
    ensures
        type_matches(a, c),
    decreases size(a) + size(b) + size(c),
{
    if c is Any {
    } else if a is Never {
    } else if let TypeView::Multi(xs) = a {
        lemma_sizes(xs);
        lemma_all_match(xs, b);
        lemma_all_match(xs, c);
        assert forall|i: int| 0 <= i < xs.len() implies type_matches(#[trigger] xs[i], c) by {
            lemma_matches_transitive(xs[i], b, c);
        }
    } else if b is Any {
        if let TypeView::Multi(zs) = c {
            lemma_sizes(zs);
            lemma_any_match(b, zs);
            lemma_any_match(a, zs);
            let k = choose|k: int| 0 <= k < zs.len() && type_matches(b, #[trigger] zs[k]);
            lemma_matches_transitive(a, b, zs[k]);
        }
    } else if b is Never {
    } else if let TypeView::Multi(ys) = b {
        lemma_sizes(ys);
        lemma_any_match(a, ys);
        lemma_all_match(ys, c);
        let j = choose|j: int| 0 <= j < ys.len() && type_matches(a, #[trigger] ys[j]);
        lemma_matches_transitive(a, ys[j], c);
    } else if let TypeView::Multi(zs) = c {
        lemma_sizes(zs);
        lemma_any_match(b, zs);
        lemma_any_match(a, zs);
        let k = choose|k: int| 0 <= k < zs.len() && type_matches(b, #[trigger] zs[k]);
        lemma_matches_transitive(a, b, zs[k]);
    } else {
        match (a, b, c) {
            (
                TypeView::Function(p1, r1),
                TypeView::Function(p2, r2),
                TypeView::Function(p3, r3),
            ) => {
                lemma_matches_transitive(*r1, *r2, *r3);
                lemma_sizes(p1);
                lemma_sizes(p2);
                lemma_sizes(p3);
                lemma_pairwise(p2, p1);
                lemma_pairwise(p3, p2);
                lemma_pairwise(p3, p1);
                assert forall|i: int| 0 <= i < p3.len() implies type_matches(
                    #[trigger] p3[i],
                    p1[i],
                ) by {
                    lemma_matches_transitive(p3[i], p2[i], p1[i]);
                }
            },
            (TypeView::Array(x), TypeView::Array(y), TypeView::Array(z)) => {
                lemma_matches_transitive(*x, *y, *z);
            },
            (TypeView::Tuple(xs), TypeView::Tuple(ys), TypeView::Tuple(zs)) => {
                lemma_sizes(xs);
                lemma_sizes(ys);
                lemma_sizes(zs);
                lemma_pairwise(xs, ys);
                lemma_pairwise(ys, zs);
                lemma_pairwise(xs, zs);
                assert forall|i: int| 0 <= i < xs.len() implies type_matches(
                    #[trigger] xs[i],
                    zs[i],
                ) by {
                    lemma_matches_transitive(xs[i], ys[i], zs[i]);
                }
            },
            _ => {},
        }
    }
}

/// The alternatives that make up a type: those of a union, none for `never`,
/// the type itself otherwise.
pub open spec fn members(t: TypeView) -> Seq<TypeView> {
    match t {
        TypeView::Multi(xs) => xs,
        TypeView::Never => Seq::empty(),
        _ => seq![t],
    }
}

/// `ms` with the alternatives of `ts` added in order, skipping those already present.
pub open spec fn add_members(ms: Seq<TypeView>, ts: Seq<TypeView>) -> Seq<TypeView>
    decreases ts.len(),
{
    if ts.len() == 0 {
        ms
    } else {
        let init = add_members(ms, ts.subrange(0, ts.len() - 1));
        let t = ts[ts.len() - 1];
        if init.contains(t) {
            init
        } else {
            init.push(t)
        }
    }
}

/// The type whose alternatives are `ms`.
pub open spec fn from_members(ms: Seq<TypeView>) -> TypeView {
    if ms.len() == 0 {
        TypeView::Never
    } else if ms.len() == 1 {
        ms[0]
    } else {
        TypeView::Multi(ms)
    }
}

/// `a | b`: the type of values of type `a` or of type `b`.
pub open spec fn union(a: TypeView, b: TypeView) -> TypeView {
    from_members(add_members(members(a), members(b)))
}

pub proof fn lemma_add_members(ms: Seq<TypeView>, ts: Seq<TypeView>)
    ensures
        forall|x: TypeView| #[trigger]
            add_members(ms, ts).contains(x) <==> ms.contains(x) || ts.contains(x),
        add_members(ms, ts).subrange(0, ms.len() as int) == ms,
        ms.len() <= add_members(ms, ts).len(),
    decreases ts.len(),
{
    if ts.len() > 0 {
        let d = ts.subrange(0, ts.len() - 1);
        lemma_add_members(ms, d);
        let init = add_members(ms, d);
        let t = ts[ts.len() - 1];
        assert forall|x: TypeView| #[trigger]
            add_members(ms, ts).contains(x) <==> ms.contains(x) || ts.contains(x) by {
            if ts.contains(x) && x != t {
                let j = choose|j: int| 0 <= j < ts.len() && ts[j] == x;
                assert(d[j] == x);
            }
            if d.contains(x) {
                let j = choose|j: int| 0 <= j < d.len() && d[j] == x;
                assert(ts[j] == x);
            }
            if !init.contains(t) && add_members(ms, ts).contains(x) && x != t {
                let j = choose|j: int| 0 <= j < init.len() + 1 && init.push(t)[j] == x;
                assert(init[j] == x);
            }
            assert(ts[ts.len() - 1] == t);
            if !init.contains(t) {
                assert(init.push(t)[init.len() as int] == t);
                if init.contains(x) {
                    let j = choose|j: int| 0 <= j < init.len() && init[j] == x;
                    assert(init.push(t)[j] == x);
                }
            }
        }
        if !init.contains(t) {
            assert(init.push(t).subrange(0, ms.len() as int) =~= init.subrange(
                0,
                ms.len() as int,
            ));
        }
    }
}

/// A type matches `t` exactly when each of its alternatives does.
pub proof fn lemma_matches_members(a: TypeView, c: TypeView)
    ensures
        type_matches(a, c) <==> forall|i: int|
            0 <= i < members(a).len() ==> type_matches(#[trigger] members(a)[i], c),
{
    if let TypeView::Multi(xs) = a {
        lemma_all_match(xs, c);
    } else if !(a is Never) {
        assert(members(a)[0] == a);
    }
}

pub proof fn lemma_matches_from_members(ms: Seq<TypeView>, c: TypeView)
    ensures
        type_matches(from_members(ms), c) <==> forall|i: int|
            0 <= i < ms.len() ==> type_matches(#[trigger] ms[i], c),
{
    if ms.len() >= 2 {
        lemma_all_match(ms, c);
    }
}

/// A union matches `c` exactly when both of its operands match `c`.
pub proof fn lemma_union_matches(a: TypeView, b: TypeView, c: TypeView)
    ensures
        type_matches(union(a, b), c) <==> type_matches(a, c) && type_matches(b, c),
{
    let ms = add_members(members(a), members(b));
    lemma_add_members(members(a), members(b));
    lemma_matches_from_members(ms, c);
    lemma_matches_members(a, c);
    lemma_matches_members(b, c);
    if forall|i: int| 0 <= i < ms.len() ==> type_matches(#[trigger] ms[i], c) {
        assert forall|i: int| 0 <= i < members(a).len() implies type_matches(
            #[trigger] members(a)[i],
            c,
        ) by {
            assert(members(a).contains(members(a)[i]));
            assert(ms.contains(members(a)[i]));
        }
        assert forall|i: int| 0 <= i < members(b).len() implies type_matches(
            #[trigger] members(b)[i],
            c,
        ) by {
            assert(members(b).contains(members(b)[i]));
            assert(ms.contains(members(b)[i]));
        }
    }
    if type_matches(a, c) && type_matches(b, c) {
        assert forall|i: int| 0 <= i < ms.len() implies type_matches(#[trigger] ms[i], c) by {
            assert(ms.contains(ms[i]));
            if members(a).contains(ms[i]) {
                let j = choose|j: int| 0 <= j < members(a).len() && members(a)[j] == ms[i];
                assert(type_matches(members(a)[j], c));
            } else {
                let j = choose|j: int| 0 <= j < members(b).len() && members(b)[j] == ms[i];
                assert(type_matches(members(b)[j], c));
            }
        }
    }
}

/// A type whose alternatives are all among `ms` matches the type made of `ms`.
proof fn lemma_matches_from_members_superset(a: TypeView, ms: Seq<TypeView>)
    requires
        forall|x: TypeView| members(a).contains(x) ==> ms.contains(x),
    ensures
        type_matches(a, from_members(ms)),
{
    let u = from_members(ms);
    lemma_matches_members(a, u);
    assert forall|i: int| 0 <= i < members(a).len() implies type_matches(#[trigger] members(a)[i], u) by {
        let x = members(a)[i];
        assert(members(a).contains(x));
        lemma_matches_reflexive(x);
        if ms.len() >= 2 {
            lemma_matches_multi(x, x, ms);
        } else {
            assert(ms.contains(x));
            assert(ms[0] == x);
        }
    }
}

/// Both operands of a union match it.
pub proof fn lemma_union_upper_bound(a: TypeView, b: TypeView)
    ensures
        type_matches(a, union(a, b)),
        type_matches(b, union(a, b)),
{
    let ms = add_members(members(a), members(b));
    lemma_add_members(members(a), members(b));
    lemma_matches_from_members_superset(a, ms);
    lemma_matches_from_members_superset(b, ms);
}

/// `any` is matched by every type and `never` matches every type.
pub proof fn lemma_any_never(t: TypeView)
    ensures
        type_matches(t, TypeView::Any),
        type_matches(TypeView::Never, t),
{
}


proof fn lemma_child(ts: Seq<Type>, i: int)
    requires
        0 <= i < ts.len(),
    ensures
        views(ts).len() == ts.len(),
        views(ts)[i] == ts[i]@,
        size(ts[i]@) < sizes(views(ts)),
{
    lemma_views(ts);
    lemma_sizes(views(ts));
}

fn duplicate_all(ts: &Vec<Type>) -> (r: Vec<Type>)
    ensures
        views(r@) == views(ts@),
    decreases sizes(views(ts@)),
{
    let mut r: Vec<Type> = Vec::new();
    let mut i: usize = 0;
    while i < ts.len()
        invariant
            0 <= i <= ts.len(),
            r.len() == i,
            forall|j: int| 0 <= j < i ==> #[trigger] r@[j]@ == ts@[j]@,
        decreases ts.len() - i,
    {
        proof {
            lemma_child(ts@, i as int);
        }
        r.push(ts[i].duplicate());
        i += 1;
    }
    proof {
        lemma_views(r@);
        lemma_views(ts@);
        assert(views(r@) =~= views(ts@));
    }
    r
}

fn equals_all(xs: &Vec<Type>, ys: &Vec<Type>) -> (r: bool)
    ensures
        r == (views(xs@) == views(ys@)),
    decreases sizes(views(xs@)),
{
    proof {
        lemma_views(xs@);
        lemma_views(ys@);
    }
    if xs.len() != ys.len() {
        assert(views(xs@).len() != views(ys@).len());
        return false;
    }
    let mut i: usize = 0;
    while i < xs.len()
        invariant
            0 <= i <= xs.len(),
            xs.len() == ys.len(),
            views(xs@).len() == xs.len(),
            views(ys@).len() == ys.len(),
            forall|j: int| 0 <= j < xs.len() ==> #[trigger] views(xs@)[j] == xs@[j]@,
            forall|j: int| 0 <= j < ys.len() ==> #[trigger] views(ys@)[j] == ys@[j]@,
            forall|j: int| 0 <= j < i ==> #[trigger] views(xs@)[j] == views(ys@)[j],
        decreases xs.len() - i,
    {
        proof {
            lemma_child(xs@, i as int);
        }
        if !xs[i].equals(&ys[i]) {
            assert(views(xs@)[i as int] != views(ys@)[i as int]);
            return false;
        }
        i += 1;
    }
    assert(views(xs@) =~= views(ys@));
    true
}

fn pairwise_matches(xs: &Vec<Type>, ys: &Vec<Type>) -> (r: bool)
    ensures
        r == pairwise(views(xs@), views(ys@)),
    decreases sizes(views(xs@)) + sizes(views(ys@)),
{
    proof {
        lemma_views(xs@);
        lemma_views(ys@);
        lemma_pairwise(views(xs@), views(ys@));
    }
    if xs.len() != ys.len() {
        return false;
    }
    let mut i: usize = 0;
    while i < xs.len()
        invariant
            0 <= i <= xs.len(),
            xs.len() == ys.len(),
            views(xs@).len() == xs.len(),
            views(ys@).len() == ys.len(),
            forall|j: int| 0 <= j < xs.len() ==> #[trigger] views(xs@)[j] == xs@[j]@,
            forall|j: int| 0 <= j < ys.len() ==> #[trigger] views(ys@)[j] == ys@[j]@,
            forall|j: int| 0 <= j < i ==> type_matches(#[trigger] views(xs@)[j], views(ys@)[j]),
            pairwise(views(xs@), views(ys@)) <==> forall|j: int|
                0 <= j < xs.len() ==> type_matches(#[trigger] views(xs@)[j], views(ys@)[j]),
        decreases xs.len() - i,
    {
        proof {
            lemma_child(xs@, i as int);
            lemma_child(ys@, i as int);
        }
        if !xs[i].matches(&ys[i]) {
            return false;
        }
        i += 1;
    }
    true
}

impl Clone for Type {
    fn clone(&self) -> (r: Self)
        ensures
            r@ == self@,
    {
        self.duplicate()
    }
}

impl Type {
    /// A copy of this type.
    pub fn duplicate(&self) -> (r: Type)
        ensures
            r@ == self@,
        decreases size(self@),
    {
        match self {
            Type::Int => Type::Int,
            Type::Float => Type::Float,
            Type::Bool => Type::Bool,
            Type::String => Type::String,
            Type::Void => Type::Void,
            Type::Any => Type::Any,
            Type::Never => Type::Never,
            Type::Array(t) => {
                Type::Array(Box::new(t.duplicate()))
            },
            Type::Tuple(ts) => Type::Tuple(duplicate_all(ts)),
            Type::Function(f) => {
                let params = duplicate_all(&f.params);
                let return_type = f.return_type.duplicate();
                Type::Function(Box::new(FunctionType { params, return_type }))
            },
            Type::Multi(ts) => Type::Multi(duplicate_all(ts)),
            Type::Mut(t) => {
                Type::Mut(Box::new(t.duplicate()))
            },
        }
    }

    /// Structural equality of types.
    pub fn equals(&self, other: &Type) -> (r: bool)
        ensures
            r == (self@ == other@),
        decreases size(self@),
    {
        match (self, other) {
            (Type::Int, Type::Int) => true,
            (Type::Float, Type::Float) => true,
            (Type::Bool, Type::Bool) => true,
            (Type::String, Type::String) => true,
            (Type::Void, Type::Void) => true,
            (Type::Any, Type::Any) => true,
            (Type::Never, Type::Never) => true,
            (Type::Array(x), Type::Array(y)) => {
                x.equals(y)
            },
            (Type::Mut(x), Type::Mut(y)) => {
                x.equals(y)
            },
            (Type::Tuple(xs), Type::Tuple(ys)) => equals_all(xs, ys),
            (Type::Multi(xs), Type::Multi(ys)) => equals_all(xs, ys),
            (Type::Function(f), Type::Function(g)) => {
                equals_all(&f.params, &g.params) && f.return_type.equals(&g.return_type)
            },
            _ => false,
        }
    }

    /// Whether every value of this type is a value of type `other`.
    #[verifier::loop_isolation(false)]
    pub fn matches(&self, other: &Type) -> (r: bool)
        ensures
            r == type_matches(self@, other@),
        decreases size(self@) + size(other@),
    {
        if let Type::Any = other {
            return true;
        }
        if let Type::Never = self {
            return true;
        }
        if let Type::Multi(xs) = self {
            proof {
                lemma_views(xs@);
                lemma_all_match(views(xs@), other@);
            }
            let mut i: usize = 0;
            while i < xs.len()
                invariant
                    0 <= i <= xs.len(),
                    forall|j: int| 0 <= j < i ==> type_matches(#[trigger] views(xs@)[j], other@),
                decreases xs.len() - i,
            {
                proof {
                    lemma_child(xs@, i as int);
                }
                if !xs[i].matches(other) {
                    return false;
                }
                i += 1;
            }
            return true;
        }
        if let Type::Multi(ys) = other {
            proof {
                lemma_views(ys@);
                lemma_any_match(self@, views(ys@));
            }
            let mut i: usize = 0;
            while i < ys.len()
                invariant
                    0 <= i <= ys.len(),
                    forall|j: int| 0 <= j < i ==> !type_matches(self@, #[trigger] views(ys@)[j]),
                decreases ys.len() - i,
            {
                proof {
                    lemma_child(ys@, i as int);
                }
                if self.matches(&ys[i]) {
                    return true;
                }
                i += 1;
            }
            return false;
        }
        match (self, other) {
            (Type::Function(f), Type::Function(g)) => {
                f.return_type.matches(&g.return_type) && pairwise_matches(&g.params, &f.params)
            },
            (Type::Array(x), Type::Array(y)) => x.matches(y),
            (Type::Tuple(xs), Type::Tuple(ys)) => pairwise_matches(xs, ys),
            _ => self.equals(other),
        }
    }
}


/// Which part of a type is asked for: the elements of an array, the result of
/// indexing, or the result of a call.
pub enum Part {
    Element,
    Index,
    Result,
}

/// The part `k` of type `t`; for a union, the union of the parts of its
/// alternatives, provided that each has one.
pub open spec fn part(k: Part, t: TypeView) -> Option<TypeView>
    decreases t,
{
    match t {
        TypeView::String => if k is Index {
            Some(TypeView::String)
        } else {
            None
        },
        TypeView::Array(x) => if k is Result {
            None
        } else {
            Some(*x)
        },
        TypeView::Function(_, r) => if k is Result {
            Some(*r)
        } else {
            None
        },
        TypeView::Multi(xs) => parts(k, xs),
        _ => None,
    }
}

pub open spec fn parts(k: Part, xs: Seq<TypeView>) -> Option<TypeView>
    decreases xs,
{
    if xs.len() == 0 {
        Some(TypeView::Never)
    } else {
        match (parts(k, xs.subrange(0, xs.len() - 1)), part(k, xs[xs.len() - 1])) {
            (Some(a), Some(b)) => Some(union(a, b)),
            _ => None,
        }
    }
}

/// The type of the elements of an array type.
pub open spec fn element_type(t: TypeView) -> Option<TypeView> {
    part(Part::Element, t)
}

/// The type of `x[i]` for `x` of type `t`.
pub open spec fn index_result(t: TypeView) -> Option<TypeView> {
    part(Part::Index, t)
}

/// The type of the result of calling a value of type `t`.
pub open spec fn return_type(t: TypeView) -> Option<TypeView> {
    part(Part::Result, t)
}

/// The element types of a tuple type; for a union of tuples of one length,
/// the unions of their element types position by position.
pub open spec fn flatten_tuple(t: TypeView) -> Option<Seq<TypeView>>
    decreases t,
{
    match t {
        TypeView::Tuple(xs) => Some(xs),
        TypeView::Multi(ms) => flatten_tuples(ms),
        _ => None,
    }
}

pub open spec fn flatten_tuples(ms: Seq<TypeView>) -> Option<Seq<TypeView>>
    decreases ms,
{
    if ms.len() == 0 {
        None
    } else if ms.len() == 1 {
        flatten_tuple(ms[0])
    } else {
        match (flatten_tuples(ms.subrange(0, ms.len() - 1)), flatten_tuple(ms[ms.len() - 1])) {
            (Some(a), Some(b)) => if a.len() == b.len() {
                Some(zip_union(a, b))
            } else {
                None
            },
            _ => None,
        }
    }
}

pub open spec fn zip_union(a: Seq<TypeView>, b: Seq<TypeView>) -> Seq<TypeView> {
    Seq::new(a.len(), |i: int| union(a[i], b[i]))
}

pub open spec fn opt_view(t: Option<Type>) -> Option<TypeView> {
    match t {
        Some(t) => Some(t@),
        None => None,
    }
}

pub open spec fn opt_views(t: Option<Vec<Type>>) -> Option<Seq<TypeView>> {
    match t {
        Some(t) => Some(views(t@)),
        None => None,
    }
}

/// Moves the alternatives of a type into a vector.
fn into_members(t: Type) -> (r: Vec<Type>)
    ensures
        views(r@) == members(t@),
{
    match t {
        Type::Multi(xs) => xs,
        Type::Never => Vec::new(),
        t => {
            let ghost v = t@;
            let r = vec![t];
            proof {
                lemma_views(r@);
                assert(views(r@) =~= seq![v]);
            }
            r
        },
    }
}

fn contains_type(ms: &Vec<Type>, t: &Type) -> (r: bool)
    ensures
        r == views(ms@).contains(t@),
{
    proof {
        lemma_views(ms@);
    }
    let mut i: usize = 0;
    while i < ms.len()
        invariant
            0 <= i <= ms.len(),
            views(ms@).len() == ms.len(),
            forall|j: int| 0 <= j < ms.len() ==> #[trigger] views(ms@)[j] == ms@[j]@,
            forall|j: int| 0 <= j < i ==> #[trigger] views(ms@)[j] != t@,
        decreases ms.len() - i,
    {
        if ms[i].equals(t) {
            assert(views(ms@)[i as int] == t@);
            return true;
        }
        i += 1;
    }
    false
}

impl Type {
    /// `self | other`: the type of values of either type.
    pub fn union(self, other: Type) -> (r: Type)
        ensures
            r@ == union(self@, other@),
    {
        let ghost a = self@;
        let mut ms = into_members(self);
        let others = into_members(other);
        proof {
            lemma_views(others@);
            assert(views(others@).take(0) =~= Seq::<TypeView>::empty());
        }
        let mut i: usize = 0;
        while i < others.len()
            invariant
                0 <= i <= others.len(),
                views(others@).len() == others.len(),
                forall|j: int| 0 <= j < others.len() ==> #[trigger] views(others@)[j] == others@[j]@,
                views(ms@) == add_members(members(a), views(others@).take(i as int)),
            decreases others.len() - i,
        {
            proof {
                assert(views(others@).take(i + 1).subrange(0, i as int) =~= views(others@).take(
                    i as int,
                ));
                assert(views(others@).take(i + 1)[i as int] == others@[i as int]@);
            }
            if !contains_type(&ms, &others[i]) {
                let ghost before = ms@;
                ms.push(others[i].duplicate());
                proof {
                    lemma_views(before);
                    lemma_views(ms@);
                    assert(views(ms@) =~= views(before).push(others@[i as int]@));
                }
            }
            i += 1;
        }
        proof {
            assert(views(others@).take(others.len() as int) =~= views(others@));
            lemma_views(ms@);
        }
        if ms.len() == 0 {
            Type::Never
        } else if ms.len() == 1 {
            let t = ms.pop().unwrap();
            t
        } else {
            Type::Multi(ms)
        }
    }

    fn part(&self, k: &Part) -> (r: Option<Type>)
        ensures
            opt_view(r) == part(*k, self@),
        decreases size(self@),
    {
        match self {
            Type::String => match k {
                Part::Index => Some(Type::String),
                _ => None,
            },
            Type::Array(x) => match k {
                Part::Result => None,
                _ => Some(x.duplicate()),
            },
            Type::Function(f) => match k {
                Part::Result => Some(f.return_type.duplicate()),
                _ => None,
            },
            Type::Multi(xs) => {
                proof {
                    lemma_views(xs@);
                    assert(views(xs@).take(0) =~= Seq::<TypeView>::empty());
                }
                let mut acc = Type::Never;
                let mut i: usize = 0;
                while i < xs.len()
                    invariant
                        0 <= i <= xs.len(),
                        self@ == TypeView::Multi(views(xs@)),
                        views(xs@).len() == xs.len(),
                        forall|j: int| 0 <= j < xs.len() ==> #[trigger] views(xs@)[j] == xs@[j]@,
                        parts(*k, views(xs@).take(i as int)) == Some(acc@),
                    decreases xs.len() - i,
                {
                    proof {
                        lemma_child(xs@, i as int);
                        assert(views(xs@).take(i + 1).subrange(0, i as int) =~= views(xs@).take(
                            i as int,
                        ));
                        assert(views(xs@).take(i + 1)[i as int] == xs@[i as int]@);
                    }
                    match xs[i].part(k) {
                        Some(t) => {
                            acc = acc.union(t);
                        },
                        None => {
                            proof {
                                assert(views(xs@).take(xs.len() as int) =~= views(xs@));
                                lemma_parts_none(*k, views(xs@), i as int + 1);
                            }
                            return None;
                        },
                    }
                    i += 1;
                }
                proof {
                    assert(views(xs@).take(xs.len() as int) =~= views(xs@));
                }
                Some(acc)
            },
            _ => None,
        }
    }

    /// The type of the elements of an array of this type.
    pub fn element_type(&self) -> (r: Option<Type>)
        ensures
            opt_view(r) == element_type(self@),
    {
        self.part(&Part::Element)
    }

    /// The type of indexing into a value of this type.
    pub fn index_result(&self) -> (r: Option<Type>)
        ensures
            opt_view(r) == index_result(self@),
    {
        self.part(&Part::Index)
    }

    /// The type of the result of calling a value of this type.
    pub fn return_type(&self) -> (r: Option<Type>)
        ensures
            opt_view(r) == return_type(self@),
    {
        self.part(&Part::Result)
    }
}

/// Once a prefix of `xs` has no part, neither has `xs`.
proof fn lemma_parts_none(k: Part, xs: Seq<TypeView>, n: int)
    requires
        0 < n <= xs.len(),
        parts(k, xs.take(n)) is None,
    ensures
        parts(k, xs) is None,
    decreases xs.len() - n,
{
    if n < xs.len() {
        assert(xs.take(n + 1).subrange(0, n) =~= xs.take(n));
        lemma_parts_none(k, xs, n + 1);
    } else {
        assert(xs.take(n) =~= xs);
    }
}


proof fn lemma_flatten_tuples_none(ms: Seq<TypeView>, n: int)
    requires
        0 < n <= ms.len(),
        flatten_tuples(ms.take(n)) is None,
    ensures
        flatten_tuples(ms) is None,
    decreases ms.len() - n,
{
    if n < ms.len() {
        assert(ms.take(n + 1).subrange(0, n) =~= ms.take(n));
        lemma_flatten_tuples_none(ms, n + 1);
    } else {
        assert(ms.take(n) =~= ms);
    }
}

fn zip_union_vec(a: &Vec<Type>, b: &Vec<Type>) -> (r: Vec<Type>)
    requires
        a.len() == b.len(),
    ensures
        views(r@) == zip_union(views(a@), views(b@)),
{
    proof {
        lemma_views(a@);
        lemma_views(b@);
    }
    let mut r: Vec<Type> = Vec::new();
    let mut i: usize = 0;
    while i < a.len()
        invariant
            0 <= i <= a.len(),
            a.len() == b.len(),
            r.len() == i,
            views(a@).len() == a.len(),
            views(b@).len() == b.len(),
            forall|j: int| 0 <= j < a.len() ==> #[trigger] views(a@)[j] == a@[j]@,
            forall|j: int| 0 <= j < b.len() ==> #[trigger] views(b@)[j] == b@[j]@,
            forall|j: int| 0 <= j < i ==> #[trigger] r@[j]@ == union(a@[j]@, b@[j]@),
        decreases a.len() - i,
    {
        r.push(a[i].duplicate().union(b[i].duplicate()));
        i += 1;
    }
    proof {
        lemma_views(r@);
        assert(views(r@) =~= zip_union(views(a@), views(b@)));
    }
    r
}

fn flatten_tuples_vec(ms: &Vec<Type>) -> (r: Option<Vec<Type>>)
    ensures
        opt_views(r) == flatten_tuples(views(ms@)),
    decreases sizes(views(ms@)),
{
    proof {
        lemma_views(ms@);
    }
    if ms.len() == 0 {
        return None;
    }
    proof {
        lemma_child(ms@, 0);
        assert(views(ms@).take(1) =~= seq![ms@[0]@]);
    }
    let mut acc = match ms[0].flatten_tuple() {
        Some(acc) => acc,
        None => {
            proof {
                lemma_flatten_tuples_none(views(ms@), 1);
            }
            return None;
        },
    };
    let mut i: usize = 1;
    while i < ms.len()
        invariant
            1 <= i <= ms.len(),
            views(ms@).len() == ms.len(),
            forall|j: int| 0 <= j < ms.len() ==> #[trigger] views(ms@)[j] == ms@[j]@,
            flatten_tuples(views(ms@).take(i as int)) == Some(views(acc@)),
        decreases ms.len() - i,
    {
        proof {
            lemma_child(ms@, i as int);
            assert(views(ms@).take(i + 1).subrange(0, i as int) =~= views(ms@).take(i as int));
            assert(views(ms@).take(i + 1)[i as int] == ms@[i as int]@);
        }
        match ms[i].flatten_tuple() {
            Some(b) => {
                proof {
                    lemma_views(b@);
                    lemma_views(acc@);
                }
                if b.len() != acc.len() {
                    proof {
                        lemma_flatten_tuples_none(views(ms@), i + 1);
                    }
                    return None;
                }
                acc = zip_union_vec(&acc, &b);
            },
            None => {
                proof {
                    lemma_flatten_tuples_none(views(ms@), i + 1);
                }
                return None;
            },
        }
        i += 1;
    }
    proof {
        assert(views(ms@).take(ms.len() as int) =~= views(ms@));
    }
    Some(acc)
}

impl Type {
    /// The element types of a tuple type, or of a union of tuple types of one
    /// length (each position holding the union of the types there).
    pub fn flatten_tuple(&self) -> (r: Option<Vec<Type>>)
        ensures
            opt_views(r) == flatten_tuple(self@),
        decreases size(self@),
    {
        match self {
            Type::Tuple(xs) => Some(duplicate_all(xs)),
            Type::Multi(ms) => flatten_tuples_vec(ms),
            _ => None,
        }
    }
}


impl Type {
    /// The type `[element]`.
    pub fn array(element: Type) -> (r: Type)
        ensures
            r@ == TypeView::Array(Box::new(element@)),
    {
        Type::Array(Box::new(element))
    }

    /// The tuple type of the given element types.
    pub fn tuple(elements: Vec<Type>) -> (r: Type)
        ensures
            r@ == TypeView::Tuple(views(elements@)),
    {
        Type::Tuple(elements)
    }

    /// The type `function(params) -> return_type`.
    pub fn function(params: Vec<Type>, return_type: Type) -> (r: Type)
        ensures
            r@ == TypeView::Function(views(params@), Box::new(return_type@)),
    {
        Type::Function(Box::new(FunctionType { params, return_type }))
    }

    /// The type `mut element`.
    pub fn mutable(element: Type) -> (r: Type)
        ensures
            r@ == TypeView::Mut(Box::new(element@)),
    {
        Type::Mut(Box::new(element))
    }
}

/// A vector of one type.
pub fn vec1(a: Type) -> (r: Vec<Type>)
    ensures
        views(r@) == seq![a@],
{
    let mut r: Vec<Type> = Vec::new();
    r.push(a);
    proof {
        lemma_views(r@);
        assert(views(r@) =~= seq![r@[0]@]);
    }
    r
}

/// A vector of two types.
pub fn vec2(a: Type, b: Type) -> (r: Vec<Type>)
    ensures
        views(r@) == seq![a@, b@],
{
    let mut r: Vec<Type> = Vec::new();
    r.push(a);
    r.push(b);
    proof {
        lemma_views(r@);
        assert(views(r@) =~= seq![r@[0]@, r@[1]@]);
    }
    r
}


pub proof fn lemma_views_push(s: Seq<Type>, x: Type)
    ensures
        views(s.push(x)) == views(s).push(x@),
{
    assert(s.push(x).subrange(0, s.len() as int) =~= s);
}


/// Distinct basic types do not match one another, a basic type does not
/// match every type, and an array type matches another exactly when its
/// element type does.
pub proof fn lemma_basic_types(x: TypeView, y: TypeView)
    ensures
        !type_matches(TypeView::Int, TypeView::String),
        !type_matches(TypeView::String, TypeView::Int),
        !type_matches(TypeView::Int, TypeView::Float),
        !type_matches(TypeView::Float, TypeView::Int),
        !type_matches(TypeView::Int, TypeView::Bool),
        !type_matches(TypeView::Bool, TypeView::Int),
        !type_matches(TypeView::String, TypeView::Bool),
        !type_matches(TypeView::Void, TypeView::Int),
        !type_matches(TypeView::Any, TypeView::Int),
        !type_matches(TypeView::Int, TypeView::Never),
        !type_matches(TypeView::Int, TypeView::Array(Box::new(TypeView::Int))),
        type_matches(TypeView::Array(Box::new(x)), TypeView::Array(Box::new(y))) <==> type_matches(
            x,
            y,
        ),
{
}

} // verus!
