use crate::function::function::{Function, FunctionView};
use crate::variable::var_type::{
    lemma_matches_transitive, lemma_union_matches, lemma_union_upper_bound, type_matches, union,
    Type, TypeView,
};
use vstd::prelude::*;

verus! {

/// A SimpleSL value. A float is held by its IEEE 754 bit pattern.
#[derive(Debug, PartialEq, Eq)]
pub enum Variable {
    Int(i64),
    Float(u64),
    Bool(bool),
    String(String),
    Function(Function),
    Array(Vec<Variable>),
    Tuple(Vec<Variable>),
    Void,
}

/// Model of a [`Variable`].
pub enum Value {
    Int(i64),
    Float(u64),
    Bool(bool),
    String(Seq<char>),
    Function(FunctionView),
    Array(Seq<Value>),
    Tuple(Seq<Value>),
    Void,
}

impl Variable {
    pub open spec fn view(&self) -> Value
        decreases self,
    {
        match self {
            Variable::Int(i) => Value::Int(*i),
            Variable::Float(f) => Value::Float(*f),
            Variable::Bool(b) => Value::Bool(*b),
            Variable::String(s) => Value::String(s@),
            Variable::Function(f) => Value::Function(f@),
            Variable::Array(vs) => Value::Array(values(vs@)),
            Variable::Tuple(vs) => Value::Tuple(values(vs@)),
            Variable::Void => Value::Void,
        }
    }
}

/// The models of a sequence of variables.
pub open spec fn values(s: Seq<Variable>) -> Seq<Value>
    decreases s,
{
    if s.len() == 0 {
        Seq::empty()
    } else {
        values(s.subrange(0, s.len() - 1)).push(s[s.len() - 1].view())
    }
}

pub proof fn lemma_values(s: Seq<Variable>)
    ensures
        values(s).len() == s.len(),
        forall|i: int| 0 <= i < s.len() ==> #[trigger] values(s)[i] == s[i]@,
    decreases s.len(),
{
    if s.len() > 0 {
        lemma_values(s.subrange(0, s.len() - 1));
    }
}

/// Number of constructors in a value; measures recursion over values.
pub open spec fn value_size(v: Value) -> nat
    decreases v,
{
    match v {
        Value::Array(xs) => 1 + value_sizes(xs),
        Value::Tuple(xs) => 1 + value_sizes(xs),
        _ => 1,
    }
}

pub open spec fn value_sizes(s: Seq<Value>) -> nat
    decreases s,
{
    if s.len() == 0 {
        0
    } else {
        value_sizes(s.subrange(0, s.len() - 1)) + value_size(s[s.len() - 1]) + 1
    }
}

pub proof fn lemma_value_sizes(s: Seq<Value>)
    ensures
        forall|i: int| 0 <= i < s.len() ==> value_size(#[trigger] s[i]) < value_sizes(s),
    decreases s.len(),
{
    if s.len() > 0 {
        let d = s.subrange(0, s.len() - 1);
        lemma_value_sizes(d);
        assert forall|i: int| 0 <= i < s.len() implies value_size(#[trigger] s[i]) < value_sizes(
            s,
        ) by {
            if i < s.len() - 1 {
                assert(s[i] == d[i]);
            }
        }
    }
}

proof fn lemma_value_child(s: Seq<Variable>, i: int)
    requires
        0 <= i < s.len(),
    ensures
        values(s).len() == s.len(),
        values(s)[i] == s[i]@,
        value_size(s[i]@) < value_sizes(values(s)),
{
    lemma_values(s);
    lemma_value_sizes(values(s));
}

/// The type of a value. An array has the union of the types of its elements
/// as element type (`never` when it is empty).
pub open spec fn type_of(v: Value) -> TypeView
    decreases v,
{
    match v {
        Value::Int(_) => TypeView::Int,
        Value::Float(_) => TypeView::Float,
        Value::Bool(_) => TypeView::Bool,
        Value::String(_) => TypeView::String,
        Value::Function(f) => TypeView::Function(
            Seq::new(f.params.len(), |i: int| f.params[i].var_type),
            Box::new(f.return_type),
        ),
        Value::Array(xs) => TypeView::Array(Box::new(union_of_types(xs))),
        Value::Tuple(xs) => TypeView::Tuple(types_of(xs)),
        Value::Void => TypeView::Void,
    }
}

/// The types of a sequence of values.
pub open spec fn types_of(s: Seq<Value>) -> Seq<TypeView>
    decreases s,
{
    if s.len() == 0 {
        Seq::empty()
    } else {
        types_of(s.subrange(0, s.len() - 1)).push(type_of(s[s.len() - 1]))
    }
}

/// The union of the types of a sequence of values (`never` for none).
pub open spec fn union_of_types(s: Seq<Value>) -> TypeView
    decreases s,
{
    if s.len() == 0 {
        TypeView::Never
    } else {
        union(union_of_types(s.subrange(0, s.len() - 1)), type_of(s[s.len() - 1]))
    }
}

/// The union of the types of values that all match `t` matches `t`.
pub proof fn lemma_union_of_types_matches(xs: Seq<Value>, t: TypeView)
    requires
        forall|i: int| 0 <= i < xs.len() ==> type_matches(type_of(#[trigger] xs[i]), t),
    ensures
        type_matches(union_of_types(xs), t),
    decreases xs.len(),
{
    if xs.len() > 0 {
        let d = xs.subrange(0, xs.len() - 1);
        assert forall|i: int| 0 <= i < d.len() implies type_matches(type_of(#[trigger] d[i]), t) by {
            assert(d[i] == xs[i]);
        }
        lemma_union_of_types_matches(d, t);
        assert(type_matches(type_of(xs[xs.len() - 1]), t));
        lemma_union_matches(union_of_types(d), type_of(xs[xs.len() - 1]), t);
    }
}

/// The type of each value matches the union of the types of the values.
pub proof fn lemma_union_of_types_upper_bound(xs: Seq<Value>, i: int)
    requires
        0 <= i < xs.len(),
    ensures
        type_matches(type_of(xs[i]), union_of_types(xs)),
    decreases xs.len(),
{
    let d = xs.subrange(0, xs.len() - 1);
    let last = type_of(xs[xs.len() - 1]);
    lemma_union_upper_bound(union_of_types(d), last);
    if i < xs.len() - 1 {
        assert(d[i] == xs[i]);
        lemma_union_of_types_upper_bound(d, i);
        lemma_matches_transitive(type_of(xs[i]), union_of_types(d), union(union_of_types(d), last));
    }
}

/// An array whose elements all have types that match `t` has a type that
/// matches `[t]`.
pub proof fn lemma_array_type_matches(xs: Seq<Value>, t: TypeView)
    requires
        forall|i: int| 0 <= i < xs.len() ==> type_matches(type_of(#[trigger] xs[i]), t),
    ensures
        type_matches(type_of(Value::Array(xs)), TypeView::Array(Box::new(t))),
{
    lemma_union_of_types_matches(xs, t);
}

/// A value whose type matches `int` is an integer.
pub proof fn lemma_int_typed(v: Value)
    requires
        type_matches(type_of(v), TypeView::Int),
    ensures
        v is Int,
{
}

/// The elements of an array of type `[int]` are integers, and there is at
/// least one.
pub proof fn lemma_int_array(xs: Seq<Value>)
    requires
        union_of_types(xs) == TypeView::Int,
    ensures
        xs.len() > 0,
        forall|i: int| 0 <= i < xs.len() ==> #[trigger] xs[i] is Int,
{
    assert forall|i: int| 0 <= i < xs.len() implies #[trigger] xs[i] is Int by {
        lemma_union_of_types_upper_bound(xs, i);
        lemma_int_typed(xs[i]);
    }
}

/// IEEE 754 equality of two doubles given by their bit patterns: a NaN equals
/// nothing, the two zeros are equal, otherwise the bits must be equal.
pub open spec fn float_eq(a: u64, b: u64) -> bool {
    let exp: u64 = 0x7ff0_0000_0000_0000;
    let frac: u64 = 0x000f_ffff_ffff_ffff;
    let abs: u64 = 0x7fff_ffff_ffff_ffff;
    if (a & exp == exp && a & frac != 0) || (b & exp == exp && b & frac != 0) {
        false
    } else if a & abs == 0 && b & abs == 0 {
        true
    } else {
        a == b
    }
}

/// Equality of values as the `==` of the language: numbers by value (floats as
/// IEEE 754 doubles), strings by content, arrays and tuples element by element,
/// functions by signature.
pub open spec fn value_eq(a: Value, b: Value) -> bool
    decreases value_size(a),
{
    match (a, b) {
        (Value::Int(x), Value::Int(y)) => x == y,
        (Value::Float(x), Value::Float(y)) => float_eq(x, y),
        (Value::Bool(x), Value::Bool(y)) => x == y,
        (Value::String(x), Value::String(y)) => x == y,
        (Value::Function(f), Value::Function(g)) => f.ident == g.ident && f.params == g.params
            && f.return_type == g.return_type,
        (Value::Array(xs), Value::Array(ys)) => values_eq(xs, ys),
        (Value::Tuple(xs), Value::Tuple(ys)) => values_eq(xs, ys),
        (Value::Void, Value::Void) => true,
        _ => false,
    }
}

pub open spec fn values_eq(xs: Seq<Value>, ys: Seq<Value>) -> bool
    decreases value_sizes(xs),
{
    if xs.len() != ys.len() {
        false
    } else if xs.len() == 0 {
        true
    } else {
        values_eq(xs.subrange(0, xs.len() - 1), ys.subrange(0, ys.len() - 1)) && value_eq(
            xs[xs.len() - 1],
            ys[ys.len() - 1],
        )
    }
}

pub proof fn lemma_values_eq(xs: Seq<Value>, ys: Seq<Value>)
    ensures
        values_eq(xs, ys) <==> xs.len() == ys.len() && forall|i: int|
            0 <= i < xs.len() ==> value_eq(#[trigger] xs[i], ys[i]),
    decreases xs.len(),
{
    if xs.len() == ys.len() && xs.len() > 0 {
        let dx = xs.subrange(0, xs.len() - 1);
        let dy = ys.subrange(0, ys.len() - 1);
        lemma_values_eq(dx, dy);
        assert forall|i: int| 0 <= i < xs.len() - 1 implies #[trigger] xs[i] == dx[i] && ys[i]
            == dy[i] by {}
    }
}

/// Equality of floats follows IEEE 754: it is symmetric, a NaN equals
/// nothing, the two zeros are equal, and any other float equals itself.
pub proof fn lemma_float_eq(a: u64, b: u64)
    ensures
        float_eq(a, b) == float_eq(b, a),
        !float_eq(0x7ff8_0000_0000_0000, a),
        float_eq(0, 0x8000_0000_0000_0000),
        !(a & 0x7ff0_0000_0000_0000 == 0x7ff0_0000_0000_0000 && a & 0x000f_ffff_ffff_ffff != 0)
            ==> float_eq(a, a),
{
    assert(0x7ff8_0000_0000_0000u64 & 0x7ff0_0000_0000_0000u64 == 0x7ff0_0000_0000_0000u64)
        by (bit_vector);
    assert(0x7ff8_0000_0000_0000u64 & 0x000f_ffff_ffff_ffffu64 != 0u64) by (bit_vector);
    assert(0u64 & 0x7ff0_0000_0000_0000u64 != 0x7ff0_0000_0000_0000u64) by (bit_vector);
    assert(0x8000_0000_0000_0000u64 & 0x7ff0_0000_0000_0000u64 != 0x7ff0_0000_0000_0000u64)
        by (bit_vector);
    assert(0u64 & 0x7fff_ffff_ffff_ffffu64 == 0u64) by (bit_vector);
    assert(0x8000_0000_0000_0000u64 & 0x7fff_ffff_ffff_ffffu64 == 0u64) by (bit_vector);
}

/// Two arrays are equal exactly when they have the same length and the
/// elements at each position are equal.
pub proof fn lemma_array_eq(xs: Seq<Value>, ys: Seq<Value>)
    ensures
        value_eq(Value::Array(xs), Value::Array(ys)) <==> xs.len() == ys.len() && forall|i: int|
            0 <= i < xs.len() ==> value_eq(#[trigger] xs[i], ys[i]),
{
    lemma_values_eq(xs, ys);
}

/// Integers, booleans and strings are equal exactly when they are the same;
/// values of different kinds are never equal.
pub proof fn lemma_scalar_eq(a: i64, b: i64, p: bool, q: bool, s: Seq<char>, t: Seq<char>)
    ensures
        value_eq(Value::Int(a), Value::Int(b)) <==> a == b,
        value_eq(Value::Bool(p), Value::Bool(q)) <==> p == q,
        value_eq(Value::String(s), Value::String(t)) <==> s == t,
        !value_eq(Value::Int(a), Value::String(s)),
        !value_eq(Value::Int(a), Value::Bool(p)),
        !value_eq(Value::String(s), Value::Bool(p)),
        !value_eq(Value::Int(a), Value::Array(Seq::empty())),
        value_eq(Value::Void, Value::Void),
{
}

/// Equality of values is symmetric.
pub proof fn lemma_value_eq_symmetric(a: Value, b: Value)
    ensures
        value_eq(a, b) == value_eq(b, a),
    decreases value_size(a) + value_size(b),
{
    match (a, b) {
        (Value::Array(xs), Value::Array(ys)) => lemma_values_eq_symmetric(xs, ys),
        (Value::Tuple(xs), Value::Tuple(ys)) => lemma_values_eq_symmetric(xs, ys),
        _ => {},
    }
}

proof fn lemma_values_eq_symmetric(xs: Seq<Value>, ys: Seq<Value>)
    ensures
        values_eq(xs, ys) == values_eq(ys, xs),
    decreases value_sizes(xs) + value_sizes(ys),
{
    lemma_values_eq(xs, ys);
    lemma_values_eq(ys, xs);
    if xs.len() == ys.len() {
        lemma_value_sizes(xs);
        lemma_value_sizes(ys);
        assert forall|i: int| 0 <= i < xs.len() implies value_eq(#[trigger] xs[i], ys[i])
            == value_eq(ys[i], xs[i]) by {
            lemma_value_eq_symmetric(xs[i], ys[i]);
        }
    }
}

/// `v` holds no float that is a NaN.
pub open spec fn nan_free(v: Value) -> bool
    decreases v,
{
    match v {
        Value::Float(f) => float_eq(f, f),
        Value::Array(xs) => nan_free_all(xs),
        Value::Tuple(xs) => nan_free_all(xs),
        _ => true,
    }
}

pub open spec fn nan_free_all(xs: Seq<Value>) -> bool
    decreases xs,
{
    if xs.len() == 0 {
        true
    } else {
        nan_free_all(xs.subrange(0, xs.len() - 1)) && nan_free(xs[xs.len() - 1])
    }
}

/// Every value without a NaN equals itself.
pub proof fn lemma_value_eq_reflexive(v: Value)
    requires
        nan_free(v),
    ensures
        value_eq(v, v),
    decreases value_size(v),
{
    match v {
        Value::Array(xs) => lemma_values_eq_reflexive(xs),
        Value::Tuple(xs) => lemma_values_eq_reflexive(xs),
        _ => {},
    }
}

proof fn lemma_values_eq_reflexive(xs: Seq<Value>)
    requires
        nan_free_all(xs),
    ensures
        values_eq(xs, xs),
    decreases value_sizes(xs),
{
    if xs.len() > 0 {
        let d = xs.subrange(0, xs.len() - 1);
        lemma_value_sizes(xs);
        lemma_value_sizes(d);
        assert(value_sizes(d) < value_sizes(xs));
        lemma_values_eq_reflexive(d);
        lemma_value_eq_reflexive(xs[xs.len() - 1]);
    }
}

fn float_equals(a: u64, b: u64) -> (r: bool)
    ensures
        r == float_eq(a, b),
{
    let exp: u64 = 0x7ff0_0000_0000_0000;
    let frac: u64 = 0x000f_ffff_ffff_ffff;
    let abs: u64 = 0x7fff_ffff_ffff_ffff;
    if (a & exp == exp && a & frac != 0) || (b & exp == exp && b & frac != 0) {
        false
    } else if a & abs == 0 && b & abs == 0 {
        true
    } else {
        a == b
    }
}

fn duplicate_values(vs: &Vec<Variable>) -> (r: Vec<Variable>)
    ensures
        values(r@) == values(vs@),
    decreases vs,
{
    let mut r: Vec<Variable> = Vec::new();
    let mut i: usize = 0;
    while i < vs.len()
        invariant
            0 <= i <= vs.len(),
            r.len() == i,
            forall|j: int| 0 <= j < i ==> #[trigger] r@[j]@ == vs@[j]@,
        decreases vs.len() - i,
    {
        proof {
            assert(decreases_to!(vs => vs@[i as int]));
        }
        r.push(vs[i].duplicate());
        i += 1;
    }
    proof {
        lemma_values(r@);
        lemma_values(vs@);
        assert(values(r@) =~= values(vs@));
    }
    r
}

fn values_equal(xs: &Vec<Variable>, ys: &Vec<Variable>) -> (r: bool)
    ensures
        r == values_eq(values(xs@), values(ys@)),
    decreases value_sizes(values(xs@)),
{
    proof {
        lemma_values(xs@);
        lemma_values(ys@);
        lemma_values_eq(values(xs@), values(ys@));
    }
    if xs.len() != ys.len() {
        return false;
    }
    let mut i: usize = 0;
    while i < xs.len()
        invariant
            0 <= i <= xs.len(),
            xs.len() == ys.len(),
            values(xs@).len() == xs.len(),
            values(ys@).len() == ys.len(),
            forall|j: int| 0 <= j < xs.len() ==> #[trigger] values(xs@)[j] == xs@[j]@,
            forall|j: int| 0 <= j < ys.len() ==> #[trigger] values(ys@)[j] == ys@[j]@,
            forall|j: int| 0 <= j < i ==> value_eq(#[trigger] values(xs@)[j], values(ys@)[j]),
            values_eq(values(xs@), values(ys@)) <==> forall|j: int|
                0 <= j < xs.len() ==> value_eq(#[trigger] values(xs@)[j], values(ys@)[j]),
        decreases xs.len() - i,
    {
        proof {
            lemma_value_child(xs@, i as int);
        }
        if !xs[i].equals(&ys[i]) {
            return false;
        }
        i += 1;
    }
    true
}

fn types_of_vec(vs: &Vec<Variable>) -> (r: Vec<Type>)
    ensures
        crate::variable::var_type::views(r@) == types_of(values(vs@)),
    decreases value_sizes(values(vs@)),
{
    proof {
        lemma_values(vs@);
        assert(values(vs@).take(0) =~= Seq::<Value>::empty());
    }
    let mut r: Vec<Type> = Vec::new();
    let mut i: usize = 0;
    while i < vs.len()
        invariant
            0 <= i <= vs.len(),
            r.len() == i,
            values(vs@).len() == vs.len(),
            forall|j: int| 0 <= j < vs.len() ==> #[trigger] values(vs@)[j] == vs@[j]@,
            crate::variable::var_type::views(r@) == types_of(values(vs@).take(i as int)),
        decreases vs.len() - i,
    {
        proof {
            lemma_value_child(vs@, i as int);
            assert(values(vs@).take(i + 1).subrange(0, i as int) =~= values(vs@).take(i as int));
            assert(values(vs@).take(i + 1)[i as int] == vs@[i as int]@);
        }
        let t = vs[i].as_type();
        let ghost before = r@;
        r.push(t);
        proof {
            assert(r@.subrange(0, i as int) =~= before);
        }
        i += 1;
    }
    proof {
        assert(values(vs@).take(vs.len() as int) =~= values(vs@));
    }
    r
}

fn union_of_types_vec(vs: &Vec<Variable>) -> (r: Type)
    ensures
        r@ == union_of_types(values(vs@)),
    decreases value_sizes(values(vs@)),
{
    proof {
        lemma_values(vs@);
        assert(values(vs@).take(0) =~= Seq::<Value>::empty());
    }
    let mut r = Type::Never;
    let mut i: usize = 0;
    while i < vs.len()
        invariant
            0 <= i <= vs.len(),
            values(vs@).len() == vs.len(),
            forall|j: int| 0 <= j < vs.len() ==> #[trigger] values(vs@)[j] == vs@[j]@,
            r@ == union_of_types(values(vs@).take(i as int)),
        decreases vs.len() - i,
    {
        proof {
            lemma_value_child(vs@, i as int);
            assert(values(vs@).take(i + 1).subrange(0, i as int) =~= values(vs@).take(i as int));
            assert(values(vs@).take(i + 1)[i as int] == vs@[i as int]@);
        }
        r = r.union(vs[i].as_type());
        i += 1;
    }
    proof {
        assert(values(vs@).take(vs.len() as int) =~= values(vs@));
    }
    r
}

impl Clone for Variable {
    fn clone(&self) -> (r: Self)
        ensures
            r@ == self@,
    {
        self.duplicate()
    }
}

impl Variable {
    /// A copy of this value.
    pub fn duplicate(&self) -> (r: Variable)
        ensures
            r@ == self@,
        decreases self,
    {
        match self {
            Variable::Int(i) => Variable::Int(*i),
            Variable::Float(f) => Variable::Float(*f),
            Variable::Bool(b) => Variable::Bool(*b),
            Variable::String(s) => Variable::String(s.clone()),
            Variable::Function(f) => Variable::Function(f.duplicate()),
            Variable::Array(vs) => Variable::Array(duplicate_values(vs)),
            Variable::Tuple(vs) => Variable::Tuple(duplicate_values(vs)),
            Variable::Void => Variable::Void,
        }
    }

    /// The `==` of the language.
    pub fn equals(&self, other: &Variable) -> (r: bool)
        ensures
            r == value_eq(self@, other@),
        decreases value_size(self@),
    {
        match (self, other) {
            (Variable::Int(x), Variable::Int(y)) => *x == *y,
            (Variable::Float(x), Variable::Float(y)) => float_equals(*x, *y),
            (Variable::Bool(x), Variable::Bool(y)) => *x == *y,
            (Variable::String(x), Variable::String(y)) => *x == *y,
            (Variable::Function(f), Variable::Function(g)) => function_equals(f, g),
            (Variable::Array(xs), Variable::Array(ys)) => values_equal(xs, ys),
            (Variable::Tuple(xs), Variable::Tuple(ys)) => values_equal(xs, ys),
            (Variable::Void, Variable::Void) => true,
            _ => false,
        }
    }

    /// The type of this value.
    pub fn as_type(&self) -> (r: Type)
        ensures
            r@ == type_of(self@),
        decreases value_size(self@),
    {
        match self {
            Variable::Int(_) => Type::Int,
            Variable::Float(_) => Type::Float,
            Variable::Bool(_) => Type::Bool,
            Variable::String(_) => Type::String,
            Variable::Function(f) => {
                let t = f.as_type();
                proof {
                    assert(crate::function::param::param_types(f.params@) =~= Seq::new(
                        f@.params.len(),
                        |i: int| f@.params[i].var_type,
                    ));
                }
                t
            },
            Variable::Array(vs) => Type::Array(Box::new(union_of_types_vec(vs))),
            Variable::Tuple(vs) => Type::Tuple(types_of_vec(vs)),
            Variable::Void => Type::Void,
        }
    }
}

fn function_equals(f: &Function, g: &Function) -> (r: bool)
    ensures
        r == (f@.ident == g@.ident && f@.params == g@.params && f@.return_type == g@.return_type),
{
    let ident_eq = match (&f.ident, &g.ident) {
        (Some(a), Some(b)) => *a == *b,
        (None, None) => true,
        _ => false,
    };
    assert(ident_eq == (f@.ident == g@.ident));
    if !ident_eq {
        return false;
    }
    if !f.return_type.equals(&g.return_type) {
        assert(f@.return_type != g@.return_type);
        return false;
    }
    if f.params.0.len() != g.params.0.len() {
        assert(f@.params.len() != g@.params.len());
        return false;
    }
    let mut i: usize = 0;
    while i < f.params.0.len()
        invariant
            0 <= i <= f.params@.len(),
            f.params@.len() == g.params@.len(),
            forall|j: int| 0 <= j < i ==> #[trigger] f.params@[j]@ == g.params@[j]@,
        decreases f.params@.len() - i,
    {
        let p = &f.params.0[i];
        let q = &g.params.0[i];
        if !(p.name == q.name) || !p.var_type.equals(&q.var_type) {
            assert(f@.params[i as int] != g@.params[i as int]);
            return false;
        }
        i += 1;
    }
    assert(f@.params =~= g@.params);
    true
}

} // verus!
