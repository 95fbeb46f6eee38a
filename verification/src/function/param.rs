use crate::variable::type_text::type_text;
use crate::variable::var_type::{Type, TypeView};
use vstd::prelude::*;

verus! {

/// A parameter of a function: its name and its type.
#[derive(Debug, PartialEq, Eq)]
pub struct Param {
    pub name: String,
    pub var_type: Type,
}

/// Model of a [`Param`].
pub struct ParamView {
    pub name: Seq<char>,
    pub var_type: TypeView,
}

impl Param {
    pub open spec fn view(&self) -> ParamView {
        ParamView { name: self.name@, var_type: self.var_type@ }
    }

    pub fn new(name: &str, var_type: Type) -> (r: Param)
        ensures
            r.name@ == name@,
            r.var_type == var_type,
    {
        Param { name: name.to_string(), var_type }
    }
}

impl Clone for Param {
    fn clone(&self) -> (r: Self)
        ensures
            r@ == self@,
    {
        Param { name: self.name.clone(), var_type: self.var_type.clone() }
    }
}

/// The parameters of a function, in order.
#[derive(Debug, PartialEq, Eq)]
pub struct Params(pub Vec<Param>);

pub open spec fn param_views(s: Seq<Param>) -> Seq<ParamView> {
    Seq::new(s.len(), |i: int| s[i]@)
}

pub open spec fn param_types(s: Seq<Param>) -> Seq<TypeView> {
    Seq::new(s.len(), |i: int| s[i].var_type@)
}

impl Params {
    pub open spec fn view(&self) -> Seq<Param> {
        self.0@
    }

    pub fn len(&self) -> (r: usize)
        ensures
            r == self@.len(),
    {
        self.0.len()
    }

    /// The types of the parameters.
    pub fn types(&self) -> (r: Vec<Type>)
        ensures
            crate::variable::var_type::views(r@) == param_types(self@),
    {
        let mut r: Vec<Type> = Vec::new();
        let mut i: usize = 0;
        while i < self.0.len()
            invariant
                0 <= i <= self@.len(),
                r.len() == i,
                forall|j: int| 0 <= j < i ==> #[trigger] r@[j]@ == self@[j].var_type@,
            decreases self@.len() - i,
        {
            r.push(self.0[i].var_type.clone());
            i += 1;
        }
        proof {
            crate::variable::var_type::lemma_views(r@);
            assert(crate::variable::var_type::views(r@) =~= param_types(self@));
        }
        r
    }
}

impl Clone for Params {
    fn clone(&self) -> (r: Self)
        ensures
            param_views(r@) == param_views(self@),
    {
        let mut r: Vec<Param> = Vec::new();
        let mut i: usize = 0;
        while i < self.0.len()
            invariant
                0 <= i <= self@.len(),
                r.len() == i,
                forall|j: int| 0 <= j < i ==> #[trigger] r@[j]@ == self@[j]@,
            decreases self@.len() - i,
        {
            r.push(self.0[i].clone());
            i += 1;
        }
        assert(param_views(r@) =~= param_views(self@));
        Params(r)
    }
}

/// How a parameter is written: `name: type`.
pub open spec fn param_text(p: ParamView) -> Seq<char> {
    p.name + ": "@ + type_text(p.var_type)
}

/// How parameters are written: each as `name: type`, separated by `, `.
pub open spec fn params_text(ps: Seq<ParamView>) -> Seq<char>
    decreases ps.len(),
{
    if ps.len() == 0 {
        Seq::empty()
    } else if ps.len() == 1 {
        param_text(ps[0])
    } else {
        params_text(ps.subrange(0, ps.len() - 1)) + ", "@ + param_text(ps[ps.len() - 1])
    }
}

impl Param {
    /// How this parameter is written.
    pub fn to_string(&self) -> (r: String)
        ensures
            r@ == param_text(self@),
    {
        let mut out = self.name.clone();
        out.append(": ");
        let t = self.var_type.to_string();
        out.append(t.as_str());
        out
    }
}

impl Params {
    /// How these parameters are written.
    pub fn to_string(&self) -> (r: String)
        ensures
            r@ == params_text(param_views(self@)),
    {
        let mut out = String::new();
        let mut i: usize = 0;
        proof {
            assert(param_views(self@).subrange(0, 0) =~= Seq::<ParamView>::empty());
        }
        while i < self.0.len()
            invariant
                0 <= i <= self@.len(),
                out@ == params_text(param_views(self@).subrange(0, i as int)),
            decreases self@.len() - i,
        {
            let ghost before = out@;
            if i > 0 {
                out.append(", ");
            }
            let p = self.0[i].to_string();
            out.append(p.as_str());
            proof {
                let s = param_views(self@).subrange(0, i + 1);
                assert(s.subrange(0, i as int) =~= param_views(self@).subrange(0, i as int));
                assert(s[i as int] == self@[i as int]@);
                if i == 0 {
                    assert(out@ =~= param_text(s[0]));
                } else {
                    assert(out@ =~= before + ", "@ + param_text(s[i as int]));
                }
            }
            i += 1;
        }
        proof {
            assert(param_views(self@).subrange(0, self@.len() as int) =~= param_views(self@));
        }
        out
    }
}

} // verus!
