use crate::function::param::{param_types, param_views, params_text, ParamView, Params};
use crate::interpreter::instruction::{instr_views, InstrView, Instruction};
use crate::variable::type_text::type_text;
use crate::variable::var_type::{FunctionType, Type, TypeView};
use vstd::prelude::*;

verus! {

/// A function value: its name, if it was declared with one, its parameters,
/// the type of its result and its body.
#[derive(Debug, PartialEq, Eq)]
pub struct Function {
    pub ident: Option<String>,
    pub params: Params,
    pub return_type: Type,
    pub body: Vec<Instruction>,
}

/// Model of a [`Function`].
pub struct FunctionView {
    pub ident: Option<Seq<char>>,
    pub params: Seq<ParamView>,
    pub return_type: TypeView,
    pub body: Seq<InstrView>,
}

pub open spec fn opt_string_view(s: Option<String>) -> Option<Seq<char>> {
    match s {
        Some(s) => Some(s@),
        None => None,
    }
}

impl Function {
    pub open spec fn view(&self) -> FunctionView
        decreases self,
    {
        FunctionView {
            ident: opt_string_view(self.ident),
            params: param_views(self.params@),
            return_type: self.return_type@,
            body: instr_views(self.body@),
        }
    }

    /// The type of this function: `function(<parameter types>) -> <result type>`.
    pub open spec fn spec_as_type(&self) -> TypeView {
        TypeView::Function(param_types(self.params@), Box::new(self.return_type@))
    }

    /// A function without a name.
    pub fn new(params: Params, return_type: Type, body: Vec<Instruction>) -> (r: Function)
        ensures
            r.ident is None,
            r.params == params,
            r.return_type == return_type,
            r.body == body,
    {
        Function { ident: None, params, return_type, body }
    }

    /// The type of this function.
    pub fn as_type(&self) -> (r: Type)
        ensures
            r@ == self.spec_as_type(),
    {
        let params = self.params.types();
        Type::Function(Box::new(FunctionType { params, return_type: self.return_type.clone() }))
    }
}

impl Clone for Function {
    fn clone(&self) -> (r: Self)
        ensures
            r@ == self@,
    {
        self.duplicate()
    }
}

impl Function {
    /// A copy of this function.
    pub fn duplicate(&self) -> (r: Function)
        ensures
            r@ == self@,
        decreases self,
    {
        let ident = match &self.ident {
            Some(s) => Some(s.clone()),
            None => None,
        };
        let body = crate::interpreter::instruction::duplicate_instrs(&self.body);
        Function { ident, params: self.params.clone(), return_type: self.return_type.clone(), body }
    }
}

/// How a function value is written: `(<parameters>)-><result type>`.
pub open spec fn function_text(f: FunctionView) -> Seq<char> {
    "("@ + params_text(f.params) + ")->"@ + type_text(f.return_type)
}

impl Function {
    /// How this function is written.
    pub fn to_string(&self) -> (r: String)
        ensures
            r@ == function_text(self@),
    {
        let mut out = String::new();
        out.append("(");
        let params = self.params.to_string();
        out.append(params.as_str());
        out.append(")->");
        let t = self.return_type.to_string();
        out.append(t.as_str());
        proof {
            assert(out@ =~= "("@ + params_text(param_views(self.params@)) + ")->"@ + type_text(
                self.return_type@,
            ));
        }
        out
    }
}

} // verus!
