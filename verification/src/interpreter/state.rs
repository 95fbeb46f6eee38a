use crate::interpreter::eval::{lookup, StateView};
use crate::variable::value::Variable;
use vstd::prelude::*;

verus! {

/// The variables of a running script, in the order they were set.
#[derive(Debug)]
pub struct Interpreter {
    pub variables: Vec<(String, Variable)>,
}

pub open spec fn state_view(s: Seq<(String, Variable)>) -> StateView {
    Seq::new(s.len(), |i: int| (s[i].0@, s[i].1@))
}

impl Interpreter {
    pub open spec fn view(&self) -> StateView {
        state_view(self.variables@)
    }

    /// An interpreter with no variable set.
    pub fn new() -> (r: Interpreter)
        ensures
            r@ == Seq::<(Seq<char>, crate::variable::value::Value)>::empty(),
    {
        let r = Interpreter { variables: Vec::new() };
        assert(r@ =~= Seq::<(Seq<char>, crate::variable::value::Value)>::empty());
        r
    }

    /// The value bound last to `name`.
    pub fn get(&self, name: &str) -> (r: Option<Variable>)
        ensures
            match r {
                Some(v) => lookup(self@, name@) == Some(v@),
                None => lookup(self@, name@) is None,
            },
    {
        let key = name.to_string();
        let mut i: usize = self.variables.len();
        assert(self@.subrange(0, i as int) =~= self@);
        while i > 0
            invariant
                0 <= i <= self.variables.len(),
                lookup(self@, name@) == lookup(self@.subrange(0, i as int), name@),
                key@ == name@,
            decreases i,
        {
            let entry = &self.variables[i - 1];
            proof {
                let s = self@.subrange(0, i as int);
                assert(s[i - 1] == self@[i - 1]);
                assert(self@[i - 1] == (entry.0@, entry.1@));
                assert(s.subrange(0, i - 1) =~= self@.subrange(0, i - 1));
            }
            if entry.0 == key {
                return Some(entry.1.clone());
            }
            i -= 1;
        }
        None
    }

    /// Binds `name` to `value`.
    pub fn insert(&mut self, name: String, value: Variable)
        ensures
            final(self)@ == old(self)@.push((name@, value@)),
    {
        self.variables.push((name, value));
        assert(self@ =~= old(self)@.push((name@, value@)));
    }
}

} // verus!
