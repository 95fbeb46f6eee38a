use crate::errors::error::Error;
use crate::function::check_args::check_args;
use crate::function::param::{param_types, Params};
use crate::variable::value::{type_of, Variable};
use crate::variable::var_type::{type_matches, Type, TypeView};
use vstd::prelude::*;

verus! {

/// A function whose body is Rust code: its parameters, the type of its result
/// and the body, which takes the arguments in the order of the parameters.
pub struct NativeFunction<B: Fn(&Vec<Variable>) -> Result<Variable, Error>> {
    pub params: Params,
    pub return_type: Type,
    pub body: B,
}

/// The types of the values of `args`.
pub open spec fn arg_types(args: Seq<Variable>) -> Seq<TypeView> {
    Seq::new(args.len(), |i: int| type_of(args[i]@))
}

impl<B: Fn(&Vec<Variable>) -> Result<Variable, Error>> NativeFunction<B> {
    /// The parameters of this function.
    pub fn get_params(&self) -> (r: &Params)
        ensures
            r == &self.params,
    {
        &self.params
    }

    /// The type of what this function returns.
    pub fn get_return_type(&self) -> (r: Type)
        ensures
            r@ == self.return_type@,
    {
        self.return_type.clone()
    }

    /// The type of this function: `function(<parameter types>) -> <result type>`.
    pub fn get_type(&self) -> (r: Type)
        ensures
            r@ == TypeView::Function(param_types(self.params@), Box::new(self.return_type@)),
    {
        let params = self.params.types();
        Type::function(params, self.return_type.clone())
    }

    /// Runs the body on `args`.
    pub fn exec(&self, args: &Vec<Variable>) -> (r: Result<Variable, Error>)
        requires
            self.body.requires((args,)),
        ensures
            self.body.ensures((args,), r),
    {
        (self.body)(args)
    }

    /// Checks the arguments against the parameters, as [`check_args`] does for
    /// a function called `name`, then runs the body on them.
    pub fn check_args_and_exec(&self, name: &str, args: &Vec<Variable>) -> (r: Result<
        Variable,
        Error,
    >)
        requires
            self.body.requires((args,)),
        ensures
            self.params@.len() != args.len() ==> (r matches Err(
                Error::WrongNumberOfArguments(n, count),
            ) && n@ == name@ && count == self.params@.len()),
            self.params@.len() == args.len() && (forall|i: int|
                0 <= i < args.len() ==> type_matches(
                    #[trigger] arg_types(args@)[i],
                    self.params@[i].var_type@,
                )) ==> self.body.ensures((args,), r),
            self.params@.len() == args.len() && !(forall|i: int|
                0 <= i < args.len() ==> type_matches(
                    #[trigger] arg_types(args@)[i],
                    self.params@[i].var_type@,
                )) ==> (r matches Err(Error::WrongType(n, t)) && exists|i: int|
                0 <= i < args.len() && !type_matches(
                    #[trigger] arg_types(args@)[i],
                    self.params@[i].var_type@,
                ) && n@ == self.params@[i].name@ && t@ == self.params@[i].var_type@ && forall|j: int|
                    0 <= j < i ==> type_matches(
                        #[trigger] arg_types(args@)[j],
                        self.params@[j].var_type@,
                    )),
    {
        let mut types: Vec<Type> = Vec::new();
        let mut i: usize = 0;
        while i < args.len()
            invariant
                0 <= i <= args.len(),
                types.len() == i,
                forall|j: int| 0 <= j < i ==> #[trigger] types@[j]@ == type_of(args@[j]@),
            decreases args.len() - i,
        {
            types.push(args[i].as_type());
            i += 1;
        }
        assert(forall|j: int| 0 <= j < args.len() ==> #[trigger] arg_types(args@)[j] == types@[j]@);
        match check_args(name, &self.params, types.as_slice()) {
            Ok(()) => {
                assert(forall|j: int|
                    0 <= j < args.len() ==> type_matches(
                        #[trigger] arg_types(args@)[j],
                        self.params@[j].var_type@,
                    )) by {
                    assert(forall|j: int| 0 <= j < args.len() ==> types@[j]@ == #[trigger] arg_types(args@)[j]);
                }
                self.exec(args)
            },
            Err(e) => {
                proof {
                    if self.params@.len() == args.len() {
                        let i = choose|i: int|
                            0 <= i < types@.len() && !type_matches(
                                #[trigger] types@[i]@,
                                self.params@[i].var_type@,
                            ) && (e matches Error::WrongType(n, t) && n@ == self.params@[i].name@ && t@ == self.params@[i].var_type@) && forall|j: int|
                                0 <= j < i ==> type_matches(
                                    #[trigger] types@[j]@,
                                    self.params@[j].var_type@,
                                );
                        assert(arg_types(args@)[i] == types@[i]@);
                        assert(forall|j: int| 0 <= j < i ==> types@[j]@ == #[trigger] arg_types(args@)[j]);
                    }
                }
                Err(e)
            },
        }
    }
}

} // verus!
