use crate::bin_operator::{op_text, BinOperator};
use crate::errors::exec_error::ExecError;
use crate::function::function::opt_string_view;
use crate::function::param::Param;
use crate::text::{decimal, push_decimal};
use crate::variable::type_text::type_text;
use crate::variable::var_type::Type;
use vstd::prelude::*;
use vstd::string::StringExecFns;

verus! {

/// Errors reported while reading, checking or running a script.
#[derive(Debug)]
pub enum Error {
    BreakOutsideLoop,
    ContinueOutsideLoop,
    VariableDoesntExist(String),
    WrongType(String, Type),
    WrongNumberOfArguments(String, usize),
    IndexOutOfBounds,
    TupleIndexTooBig(usize, String, usize),
    NegativeLength,
    NegativeExponent,
    CannotBeParsed(String),
    CannotIndexInto(Type),
    CannotTupleAccess(String, Type),
    CannotFieldAccess(String, Type),
    CannotIndexWith(String),
    CannotSlice(String, Type),
    ZeroDivision,
    ZeroModulo,
    OverflowShift,
    MatchNotCovered,
    IO(String),
    Parsing(String),
    IntegerOverflow(String),
    CannotUnescapeString(String),
    CannotDo2(Type, BinOperator, Type),
    WrongReturn { function_name: Option<String>, function_return_type: Type, returned: Type },
    ReturnOutsideFunction,
    MissingReturn { function_name: Option<String>, return_type: Type },
    NoField { struct_ident: String, field_ident: String, struct_type: Type },
    WrongLengthType(String),
    NotAFunction(String),
    WrongArgument { function: String, param: Param, given: String, given_type: Type },
    CannotDetermineParams(String),
    CannotReduce(String),
    NotATuple(String),
    CannotDetermineLength(String),
    WrongLength { ins: String, len: usize, idents_len: usize },
    WrongCondition(String, Type),
    WrongInitialization { declared: Type, given: String, given_type: Type },
}

/// ` name` for a named function, nothing otherwise.
pub open spec fn name_part(name: Option<String>) -> Seq<char> {
    match name {
        Some(n) => " "@ + n@,
        None => Seq::empty(),
    }
}

fn push_name_part(out: &mut String, name: &Option<String>)
    ensures
        final(out)@ == old(out)@ + name_part(*name),
{
    match name {
        Some(n) => {
            out.append(" ");
            out.append(n.as_str());
        },
        None => {
            assert(old(out)@ + Seq::<char>::empty() =~= old(out)@);
        },
    }
}

/// The message that describes an error.
pub open spec fn error_message(e: Error) -> Seq<char> {
    match e {
        Error::BreakOutsideLoop => "Break outside loop"@,
        Error::ContinueOutsideLoop => "Continue outside loop"@,
        Error::VariableDoesntExist(a) => a@ + " doesn't exist"@,
        Error::WrongType(a, b) => a@ + " should be "@ + type_text(b@),
        Error::WrongNumberOfArguments(a, b) => if b == 0 {
            a@ + " requires no arguments but some passed"@
        } else {
            a@ + " requires "@ + decimal(b as nat) + " args"@
        },
        Error::IndexOutOfBounds => "index out of bounds"@,
        Error::TupleIndexTooBig(a, b, c) => "Cannot get element "@ + decimal(a as nat) + " of tuple "@ + b@ + ". Tuple has len of "@ + decimal(c as nat),
        Error::NegativeLength => "length of an array cannot be negative"@,
        Error::NegativeExponent => "int value cannot be rised to a negative power"@,
        Error::CannotBeParsed(a) => a@ + " cannot be parsed to variable"@,
        Error::CannotIndexInto(a) => "Cannot index into value of type "@ + type_text(a@),
        Error::CannotTupleAccess(a, b) => "Cannot access element of "@ + a@ + " which is "@ + type_text(b@) + ". Only accessing elements of tuple is possible"@,
        Error::CannotFieldAccess(a, b) => "Cannot access field of "@ + a@ + " which is "@ + type_text(b@) + ". Only accessing fields of struct is possible"@,
        Error::CannotIndexWith(a) => "Cannot index with "@ + a@ + ". Index must be int"@,
        Error::CannotSlice(a, b) => "Cannot slice "@ + a@ + " which is "@ + type_text(b@) + ". Only variables of type string | [any] can be sliced"@,
        Error::ZeroDivision => "Cannot divide by 0"@,
        Error::ZeroModulo => "Cannot calculate the remainder with a divisor of 0"@,
        Error::OverflowShift => "Cannot shift with overflow"@,
        Error::MatchNotCovered => "All posible values must be covered in match"@,
        Error::IO(a) => a@,
        Error::Parsing(a) => a@,
        Error::IntegerOverflow(a) => a@ + " is to big too fit in int type"@,
        Error::CannotUnescapeString(a) => a@,
        Error::CannotDo2(a, b, c) => "Cannot do "@ + type_text(a@) + " "@ + op_text(b) + " "@ + type_text(c@),
        Error::WrongReturn { function_name, function_return_type, returned } => "Cannot return "@ + type_text(returned@) + " from function"@ + name_part(function_name) + "\nFunction"@ + name_part(function_name) + " declared to return "@ + type_text(function_return_type@),
        Error::ReturnOutsideFunction => "Return statement can only be used inside of function body"@,
        Error::MissingReturn { function_name, return_type } => "Function"@ + name_part(function_name) + " declared to return "@ + type_text(return_type@) + " may exit without returning any value\nadd return statement at the end of the function or change return type of the function to include ()"@,
        Error::NoField { struct_ident, field_ident, struct_type } => struct_ident@ + " has no field '"@ + field_ident@ + "'. Type of "@ + struct_ident@ + " is "@ + type_text(struct_type@),
        Error::WrongLengthType(a) => "Cannot create array of length "@ + a@ + ". Length must be int"@,
        Error::NotAFunction(a) => "Cannot call "@ + a@ + ". It is not a function"@,
        Error::WrongArgument { function, param, given, given_type } => "Argument "@ + param.name@ + " of function "@ + function@ + " needs to be "@ + type_text(param.var_type@) + ". But "@ + given@ + " that is "@ + type_text(given_type@) + " was given"@,
        Error::CannotDetermineParams(a) => "Cannot determine params of function "@ + a@,
        Error::CannotReduce(a) => "Cannot reduce "@ + a@ + ". It is not an array"@,
        Error::NotATuple(a) => "Cannot destruct "@ + a@ + ". It is not a tuple"@,
        Error::CannotDetermineLength(a) => "Cannot determine length of "@ + a@,
        Error::WrongLength { ins, len, idents_len } => ins@ + " has "@ + decimal(len as nat) + " elements but "@ + decimal(idents_len as nat) + " idents were given"@,
        Error::WrongCondition(a, b) => "Condition must be bool but "@ + a@ + " which is "@ + type_text(b@) + " was given"@,
        Error::WrongInitialization { declared, given, given_type } => "mut declared to contain "@ + type_text(declared@) + " but initialized with "@ + given@ + " that is "@ + type_text(given_type@),
    }
}

/// When two errors are equal: errors of most kinds are compared field by
/// field; for the others only the kind counts.
pub open spec fn error_eq(a: Error, b: Error) -> bool {
    match (a, b) {
        (Error::BreakOutsideLoop, Error::BreakOutsideLoop) => true,
        (Error::ContinueOutsideLoop, Error::ContinueOutsideLoop) => true,
        (Error::VariableDoesntExist(a1), Error::VariableDoesntExist(a2)) => a1@ == a2@,
        (Error::WrongType(a1, b1), Error::WrongType(a2, b2)) => a1@ == a2@ && b1@ == b2@,
        (Error::WrongNumberOfArguments(a1, b1), Error::WrongNumberOfArguments(a2, b2)) => a1@ == a2@ && b1 == b2,
        (Error::IndexOutOfBounds, Error::IndexOutOfBounds) => true,
        (Error::TupleIndexTooBig(a1, b1, c1), Error::TupleIndexTooBig(a2, b2, c2)) => a1 == a2 && b1@ == b2@ && c1 == c2,
        (Error::NegativeLength, Error::NegativeLength) => true,
        (Error::NegativeExponent, Error::NegativeExponent) => true,
        (Error::CannotBeParsed(a1), Error::CannotBeParsed(a2)) => a1@ == a2@,
        (Error::CannotIndexInto(a1), Error::CannotIndexInto(a2)) => a1@ == a2@,
        (Error::CannotTupleAccess(a1, b1), Error::CannotTupleAccess(a2, b2)) => a1@ == a2@ && b1@ == b2@,
        (Error::CannotFieldAccess(a1, b1), Error::CannotFieldAccess(a2, b2)) => a1@ == a2@ && b1@ == b2@,
        (Error::CannotIndexWith(a1), Error::CannotIndexWith(a2)) => a1@ == a2@,
        (Error::CannotSlice(a1, b1), Error::CannotSlice(a2, b2)) => a1@ == a2@ && b1@ == b2@,
        (Error::ZeroDivision, Error::ZeroDivision) => true,
        (Error::ZeroModulo, Error::ZeroModulo) => true,
        (Error::OverflowShift, Error::OverflowShift) => true,
        (Error::MatchNotCovered, Error::MatchNotCovered) => true,
        (Error::IO(a1), Error::IO(a2)) => a1@ == a2@,
        (Error::Parsing(a1), Error::Parsing(a2)) => a1@ == a2@,
        (Error::IntegerOverflow(a1), Error::IntegerOverflow(a2)) => a1@ == a2@,
        (Error::CannotUnescapeString(a1), Error::CannotUnescapeString(a2)) => a1@ == a2@,
        (Error::CannotDo2(a1, b1, c1), Error::CannotDo2(a2, b2, c2)) => a1@ == a2@ && b1 == b2 && c1@ == c2@,
        (Error::WrongReturn { function_name: function_name1, function_return_type: function_return_type1, returned: returned1 }, Error::WrongReturn { function_name: function_name2, function_return_type: function_return_type2, returned: returned2 }) => opt_string_view(function_name1) == opt_string_view(function_name2) && function_return_type1@ == function_return_type2@ && returned1@ == returned2@,
        (Error::ReturnOutsideFunction, Error::ReturnOutsideFunction) => true,
        (Error::MissingReturn { .. }, Error::MissingReturn { .. }) => true,
        (Error::NoField { struct_ident: struct_ident1, field_ident: field_ident1, struct_type: struct_type1 }, Error::NoField { struct_ident: struct_ident2, field_ident: field_ident2, struct_type: struct_type2 }) => struct_ident1@ == struct_ident2@ && field_ident1@ == field_ident2@ && struct_type1@ == struct_type2@,
        (Error::WrongLengthType(..), Error::WrongLengthType(..)) => true,
        (Error::NotAFunction(a1), Error::NotAFunction(a2)) => a1@ == a2@,
        (Error::WrongArgument { function: function1, param: param1, given: given1, given_type: given_type1 }, Error::WrongArgument { function: function2, param: param2, given: given2, given_type: given_type2 }) => function1@ == function2@ && param1@ == param2@ && given1@ == given2@ && given_type1@ == given_type2@,
        (Error::CannotDetermineParams(a1), Error::CannotDetermineParams(a2)) => a1@ == a2@,
        (Error::CannotReduce(a1), Error::CannotReduce(a2)) => a1@ == a2@,
        (Error::NotATuple(a1), Error::NotATuple(a2)) => a1@ == a2@,
        (Error::CannotDetermineLength(a1), Error::CannotDetermineLength(a2)) => a1@ == a2@,
        (Error::WrongLength { ins: ins1, len: len1, idents_len: idents_len1 }, Error::WrongLength { ins: ins2, len: len2, idents_len: idents_len2 }) => ins1@ == ins2@ && len1 == len2 && idents_len1 == idents_len2,
        (Error::WrongCondition(a1, b1), Error::WrongCondition(a2, b2)) => a1@ == a2@ && b1@ == b2@,
        (Error::WrongInitialization { .. }, Error::WrongInitialization { .. }) => true,
        _ => false,
    }
}

/// Equality of errors is an equivalence: every error equals itself, and the
/// relation is symmetric and transitive.
pub proof fn lemma_error_eq_equivalence(a: Error, b: Error, c: Error)
    ensures
        error_eq(a, a),
        error_eq(a, b) ==> error_eq(b, a),
        error_eq(a, b) && error_eq(b, c) ==> error_eq(a, c),
{
}

fn opt_string_equals(a: &Option<String>, b: &Option<String>) -> (r: bool)
    ensures
        r == (opt_string_view(*a) == opt_string_view(*b)),
{
    match (a, b) {
        (Some(x), Some(y)) => *x == *y,
        (None, None) => true,
        _ => false,
    }
}

fn param_equals(a: &Param, b: &Param) -> (r: bool)
    ensures
        r == (a@ == b@),
{
    a.name == b.name && a.var_type.equals(&b.var_type)
}

impl Error {
    /// The message that describes this error.
    pub fn to_string(&self) -> (r: String)
        ensures
            r@ == error_message(*self),
    {
        let mut out = String::new();
        match self {
            Error::BreakOutsideLoop => {
                out.append("Break outside loop");
            },
            Error::ContinueOutsideLoop => {
                out.append("Continue outside loop");
            },
            Error::VariableDoesntExist(a) => {
                out.append(a.as_str());
                out.append(" doesn't exist");
            },
            Error::WrongType(a, b) => {
                out.append(a.as_str());
                out.append(" should be ");
                let s = b.to_string();
                out.append(s.as_str());
            },
            Error::WrongNumberOfArguments(a, b) => {
                out.append(a.as_str());
                if *b == 0 {
                    out.append(" requires no arguments but some passed");
                } else {
                    out.append(" requires ");
                    push_decimal(&mut out, *b);
                    out.append(" args");
                }
            },
            Error::IndexOutOfBounds => {
                out.append("index out of bounds");
            },
            Error::TupleIndexTooBig(a, b, c) => {
                out.append("Cannot get element ");
                push_decimal(&mut out, *a);
                out.append(" of tuple ");
                out.append(b.as_str());
                out.append(". Tuple has len of ");
                push_decimal(&mut out, *c);
            },
            Error::NegativeLength => {
                out.append("length of an array cannot be negative");
            },
            Error::NegativeExponent => {
                out.append("int value cannot be rised to a negative power");
            },
            Error::CannotBeParsed(a) => {
                out.append(a.as_str());
                out.append(" cannot be parsed to variable");
            },
            Error::CannotIndexInto(a) => {
                out.append("Cannot index into value of type ");
                let s = a.to_string();
                out.append(s.as_str());
            },
            Error::CannotTupleAccess(a, b) => {
                out.append("Cannot access element of ");
                out.append(a.as_str());
                out.append(" which is ");
                let s = b.to_string();
                out.append(s.as_str());
                out.append(". Only accessing elements of tuple is possible");
            },
            Error::CannotFieldAccess(a, b) => {
                out.append("Cannot access field of ");
                out.append(a.as_str());
                out.append(" which is ");
                let s = b.to_string();
                out.append(s.as_str());
                out.append(". Only accessing fields of struct is possible");
            },
            Error::CannotIndexWith(a) => {
                out.append("Cannot index with ");
                out.append(a.as_str());
                out.append(". Index must be int");
            },
            Error::CannotSlice(a, b) => {
                out.append("Cannot slice ");
                out.append(a.as_str());
                out.append(" which is ");
                let s = b.to_string();
                out.append(s.as_str());
                out.append(". Only variables of type string | [any] can be sliced");
            },
            Error::ZeroDivision => {
                out.append("Cannot divide by 0");
            },
            Error::ZeroModulo => {
                out.append("Cannot calculate the remainder with a divisor of 0");
            },
            Error::OverflowShift => {
                out.append("Cannot shift with overflow");
            },
            Error::MatchNotCovered => {
                out.append("All posible values must be covered in match");
            },
            Error::IO(a) => {
                out.append(a.as_str());
            },
            Error::Parsing(a) => {
                out.append(a.as_str());
            },
            Error::IntegerOverflow(a) => {
                out.append(a.as_str());
                out.append(" is to big too fit in int type");
            },
            Error::CannotUnescapeString(a) => {
                out.append(a.as_str());
            },
            Error::CannotDo2(a, b, c) => {
                out.append("Cannot do ");
                let s = a.to_string();
                out.append(s.as_str());
                out.append(" ");
                let s = b.to_string();
                out.append(s.as_str());
                out.append(" ");
                let s = c.to_string();
                out.append(s.as_str());
            },
            Error::WrongReturn { function_name, function_return_type, returned } => {
                out.append("Cannot return ");
                let s = returned.to_string();
                out.append(s.as_str());
                out.append(" from function");
                push_name_part(&mut out, function_name);
                out.append("\nFunction");
                push_name_part(&mut out, function_name);
                out.append(" declared to return ");
                let s = function_return_type.to_string();
                out.append(s.as_str());
            },
            Error::ReturnOutsideFunction => {
                out.append("Return statement can only be used inside of function body");
            },
            Error::MissingReturn { function_name, return_type } => {
                out.append("Function");
                push_name_part(&mut out, function_name);
                out.append(" declared to return ");
                let s = return_type.to_string();
                out.append(s.as_str());
                out.append(" may exit without returning any value\nadd return statement at the end of the function or change return type of the function to include ()");
            },
            Error::NoField { struct_ident, field_ident, struct_type } => {
                out.append(struct_ident.as_str());
                out.append(" has no field '");
                out.append(field_ident.as_str());
                out.append("'. Type of ");
                out.append(struct_ident.as_str());
                out.append(" is ");
                let s = struct_type.to_string();
                out.append(s.as_str());
            },
            Error::WrongLengthType(a) => {
                out.append("Cannot create array of length ");
                out.append(a.as_str());
                out.append(". Length must be int");
            },
            Error::NotAFunction(a) => {
                out.append("Cannot call ");
                out.append(a.as_str());
                out.append(". It is not a function");
            },
            Error::WrongArgument { function, param, given, given_type } => {
                out.append("Argument ");
                out.append(param.name.as_str());
                out.append(" of function ");
                out.append(function.as_str());
                out.append(" needs to be ");
                let s = param.var_type.to_string();
                out.append(s.as_str());
                out.append(". But ");
                out.append(given.as_str());
                out.append(" that is ");
                let s = given_type.to_string();
                out.append(s.as_str());
                out.append(" was given");
            },
            Error::CannotDetermineParams(a) => {
                out.append("Cannot determine params of function ");
                out.append(a.as_str());
            },
            Error::CannotReduce(a) => {
                out.append("Cannot reduce ");
                out.append(a.as_str());
                out.append(". It is not an array");
            },
            Error::NotATuple(a) => {
                out.append("Cannot destruct ");
                out.append(a.as_str());
                out.append(". It is not a tuple");
            },
            Error::CannotDetermineLength(a) => {
                out.append("Cannot determine length of ");
                out.append(a.as_str());
            },
            Error::WrongLength { ins, len, idents_len } => {
                out.append(ins.as_str());
                out.append(" has ");
                push_decimal(&mut out, *len);
                out.append(" elements but ");
                push_decimal(&mut out, *idents_len);
                out.append(" idents were given");
            },
            Error::WrongCondition(a, b) => {
                out.append("Condition must be bool but ");
                out.append(a.as_str());
                out.append(" which is ");
                let s = b.to_string();
                out.append(s.as_str());
                out.append(" was given");
            },
            Error::WrongInitialization { declared, given, given_type } => {
                out.append("mut declared to contain ");
                let s = declared.to_string();
                out.append(s.as_str());
                out.append(" but initialized with ");
                out.append(given.as_str());
                out.append(" that is ");
                let s = given_type.to_string();
                out.append(s.as_str());
            },
        }
        assert(out@ =~= error_message(*self));
        out
    }

    /// Equality of errors (see `error_eq`).
    pub fn equals(&self, other: &Error) -> (r: bool)
        ensures
            r == error_eq(*self, *other),
    {
        match (self, other) {
            (Error::BreakOutsideLoop, Error::BreakOutsideLoop) => true,
            (Error::ContinueOutsideLoop, Error::ContinueOutsideLoop) => true,
            (Error::VariableDoesntExist(a1), Error::VariableDoesntExist(a2)) => *a1 == *a2,
            (Error::WrongType(a1, b1), Error::WrongType(a2, b2)) => *a1 == *a2 && b1.equals(b2),
            (Error::WrongNumberOfArguments(a1, b1), Error::WrongNumberOfArguments(a2, b2)) => *a1 == *a2 && *b1 == *b2,
            (Error::IndexOutOfBounds, Error::IndexOutOfBounds) => true,
            (Error::TupleIndexTooBig(a1, b1, c1), Error::TupleIndexTooBig(a2, b2, c2)) => *a1 == *a2 && *b1 == *b2 && *c1 == *c2,
            (Error::NegativeLength, Error::NegativeLength) => true,
            (Error::NegativeExponent, Error::NegativeExponent) => true,
            (Error::CannotBeParsed(a1), Error::CannotBeParsed(a2)) => *a1 == *a2,
            (Error::CannotIndexInto(a1), Error::CannotIndexInto(a2)) => a1.equals(a2),
            (Error::CannotTupleAccess(a1, b1), Error::CannotTupleAccess(a2, b2)) => *a1 == *a2 && b1.equals(b2),
            (Error::CannotFieldAccess(a1, b1), Error::CannotFieldAccess(a2, b2)) => *a1 == *a2 && b1.equals(b2),
            (Error::CannotIndexWith(a1), Error::CannotIndexWith(a2)) => *a1 == *a2,
            (Error::CannotSlice(a1, b1), Error::CannotSlice(a2, b2)) => *a1 == *a2 && b1.equals(b2),
            (Error::ZeroDivision, Error::ZeroDivision) => true,
            (Error::ZeroModulo, Error::ZeroModulo) => true,
            (Error::OverflowShift, Error::OverflowShift) => true,
            (Error::MatchNotCovered, Error::MatchNotCovered) => true,
            (Error::IO(a1), Error::IO(a2)) => *a1 == *a2,
            (Error::Parsing(a1), Error::Parsing(a2)) => *a1 == *a2,
            (Error::IntegerOverflow(a1), Error::IntegerOverflow(a2)) => *a1 == *a2,
            (Error::CannotUnescapeString(a1), Error::CannotUnescapeString(a2)) => *a1 == *a2,
            (Error::CannotDo2(a1, b1, c1), Error::CannotDo2(a2, b2, c2)) => a1.equals(a2) && *b1 == *b2 && c1.equals(c2),
            (Error::WrongReturn { function_name: function_name1, function_return_type: function_return_type1, returned: returned1 }, Error::WrongReturn { function_name: function_name2, function_return_type: function_return_type2, returned: returned2 }) => opt_string_equals(function_name1, function_name2) && function_return_type1.equals(function_return_type2) && returned1.equals(returned2),
            (Error::ReturnOutsideFunction, Error::ReturnOutsideFunction) => true,
            (Error::MissingReturn { .. }, Error::MissingReturn { .. }) => true,
            (Error::NoField { struct_ident: struct_ident1, field_ident: field_ident1, struct_type: struct_type1 }, Error::NoField { struct_ident: struct_ident2, field_ident: field_ident2, struct_type: struct_type2 }) => *struct_ident1 == *struct_ident2 && *field_ident1 == *field_ident2 && struct_type1.equals(struct_type2),
            (Error::WrongLengthType(..), Error::WrongLengthType(..)) => true,
            (Error::NotAFunction(a1), Error::NotAFunction(a2)) => *a1 == *a2,
            (Error::WrongArgument { function: function1, param: param1, given: given1, given_type: given_type1 }, Error::WrongArgument { function: function2, param: param2, given: given2, given_type: given_type2 }) => *function1 == *function2 && param_equals(param1, param2) && *given1 == *given2 && given_type1.equals(given_type2),
            (Error::CannotDetermineParams(a1), Error::CannotDetermineParams(a2)) => *a1 == *a2,
            (Error::CannotReduce(a1), Error::CannotReduce(a2)) => *a1 == *a2,
            (Error::NotATuple(a1), Error::NotATuple(a2)) => *a1 == *a2,
            (Error::CannotDetermineLength(a1), Error::CannotDetermineLength(a2)) => *a1 == *a2,
            (Error::WrongLength { ins: ins1, len: len1, idents_len: idents_len1 }, Error::WrongLength { ins: ins2, len: len2, idents_len: idents_len2 }) => *ins1 == *ins2 && *len1 == *len2 && *idents_len1 == *idents_len2,
            (Error::WrongCondition(a1, b1), Error::WrongCondition(a2, b2)) => *a1 == *a2 && b1.equals(b2),
            (Error::WrongInitialization { .. }, Error::WrongInitialization { .. }) => true,
            _ => false,
        }
    }
}

/// The error of a script that stops with an execution error: the error of the
/// same name.
pub open spec fn from_exec_error(value: ExecError) -> Error {
    match value {
        ExecError::IndexOutOfBounds => Error::IndexOutOfBounds,
        ExecError::NegativeLength => Error::NegativeLength,
        ExecError::NegativeExponent => Error::NegativeExponent,
        ExecError::ZeroDivision => Error::ZeroDivision,
        ExecError::ZeroModulo => Error::ZeroModulo,
        ExecError::OverflowShift => Error::OverflowShift,
    }
}

impl From<ExecError> for Error {
    fn from(value: ExecError) -> (r: Self) {
        match value {
            ExecError::IndexOutOfBounds => Error::IndexOutOfBounds,
            ExecError::NegativeLength => Error::NegativeLength,
            ExecError::NegativeExponent => Error::NegativeExponent,
            ExecError::ZeroDivision => Error::ZeroDivision,
            ExecError::ZeroModulo => Error::ZeroModulo,
            ExecError::OverflowShift => Error::OverflowShift,
        }
    }
}

impl vstd::std_specs::convert::FromSpecImpl<ExecError> for Error {
    open spec fn obeys_from_spec() -> bool {
        true
    }

    open spec fn from_spec(v: ExecError) -> Error {
        from_exec_error(v)
    }
}

} // verus!
