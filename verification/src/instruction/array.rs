use crate::variable::value::{lemma_array_type_matches, type_of, Value};
use crate::variable::var_type::{
    lemma_matches_reflexive, lemma_matches_transitive, lemma_union_upper_bound, lemma_views, type_matches, union, views, Type, TypeView,
};
use vstd::prelude::*;

verus! {

/// An array literal `[e1, e2, ...]`.
pub struct Array;

/// The element type of an array literal whose elements have the types `ts`:
/// the union of those types, from the first on, or `never` when there is none.
pub open spec fn elements_type(ts: Seq<TypeView>) -> TypeView
    decreases ts.len(),
{
    if ts.len() == 0 {
        TypeView::Never
    } else if ts.len() == 1 {
        ts[0]
    } else {
        union(elements_type(ts.subrange(0, ts.len() - 1)), ts[ts.len() - 1])
    }
}

/// Each element type matches the element type of the literal.
pub proof fn lemma_elements_type_upper_bound(ts: Seq<TypeView>, i: int)
    requires
        0 <= i < ts.len(),
    ensures
        type_matches(ts[i], elements_type(ts)),
    decreases ts.len(),
{
    if ts.len() == 1 {
        lemma_matches_reflexive(ts[0]);
    } else {
        let d = ts.subrange(0, ts.len() - 1);
        let last = ts[ts.len() - 1];
        lemma_union_upper_bound(elements_type(d), last);
        if i < ts.len() - 1 {
            assert(d[i] == ts[i]);
            lemma_elements_type_upper_bound(d, i);
            lemma_matches_transitive(ts[i], elements_type(d), union(elements_type(d), last));
        }
    }
}

/// An array literal whose elements evaluate to values whose types match the
/// types of the elements computes an array whose type matches the type that
/// the check gives the literal.
pub proof fn lemma_array_result_type(vs: Seq<Value>, ts: Seq<TypeView>)
    requires
        vs.len() == ts.len(),
        forall|i: int| 0 <= i < vs.len() ==> type_matches(type_of(#[trigger] vs[i]), ts[i]),
    ensures
        type_matches(type_of(Value::Array(vs)), TypeView::Array(Box::new(elements_type(ts)))),
{
    assert forall|i: int| 0 <= i < vs.len() implies type_matches(
        type_of(#[trigger] vs[i]),
        elements_type(ts),
    ) by {
        lemma_elements_type_upper_bound(ts, i);
        lemma_matches_transitive(type_of(vs[i]), ts[i], elements_type(ts));
    }
    lemma_array_type_matches(vs, elements_type(ts));
}

impl Array {
    /// The element type of an array literal whose elements have the given
    /// types.
    pub fn element_type(types: &Vec<Type>) -> (r: Type)
        ensures
            r@ == elements_type(views(types@)),
    {
        proof {
            lemma_views(types@);
        }
        if types.len() == 0 {
            return Type::Never;
        }
        let mut r = types[0].clone();
        let mut i: usize = 1;
        proof {
            assert(views(types@).subrange(0, 1).subrange(0, 0) =~= Seq::<TypeView>::empty());
        }
        while i < types.len()
            invariant
                1 <= i <= types.len(),
                views(types@).len() == types.len(),
                forall|j: int| 0 <= j < types.len() ==> #[trigger] views(types@)[j] == types@[j]@,
                r@ == elements_type(views(types@).subrange(0, i as int)),
            decreases types.len() - i,
        {
            proof {
                let s = views(types@).subrange(0, i + 1);
                assert(s.subrange(0, i as int) =~= views(types@).subrange(0, i as int));
                assert(s[i as int] == types@[i as int]@);
            }
            r = r.union(types[i].clone());
            i += 1;
        }
        proof {
            assert(views(types@).subrange(0, types.len() as int) =~= views(types@));
        }
        r
    }

    /// The type of an array literal with elements of type `element_type`.
    pub fn return_type(element_type: &Type) -> (r: Type)
        ensures
            r@ == TypeView::Array(Box::new(element_type@)),
    {
        Type::array(element_type.clone())
    }
}

} // verus!
