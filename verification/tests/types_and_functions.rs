use simplesl::errors::error::Error;
use simplesl::errors::exec_error::ExecError;
use simplesl::function::check_args::check_args;
use simplesl::function::function::Function;
use simplesl::function::native_function::NativeFunction;
use simplesl::function::param::{Param, Params};
use simplesl::variable::literal::{literal_from_unescaped, string_literal};
use simplesl::variable::type_parse::parse;
use simplesl::variable::value::Variable;
use simplesl::variable::var_type::Type;

fn t(text: &str) -> Type {
    parse(text).unwrap()
}

#[test]
fn matches_is_transitive_on_examples() {
    let chain = ["never", "int", "int | float", "int | float | string", "any"];
    for (i, a) in chain.iter().enumerate() {
        for b in &chain[i..] {
            assert!(t(a).matches(&t(b)), "{a} should match {b}");
        }
    }
    // a function accepting more and returning less matches
    assert!(t("function(any)->int").matches(&t("function(int)->int | float")));
    assert!(t("function(int | float)->int").matches(&t("function(int)->any")));
    assert!(!t("function(int)->int").matches(&t("function(int | float)->int")));
}

#[test]
fn matches_is_reflexive_on_examples() {
    for text in ["int", "[int | float]", "(int, string)", "function(int, [any])->()", "mut int", "any", "never"] {
        assert!(t(text).matches(&t(text)), "{text}");
    }
}

#[test]
fn union_is_the_least_upper_bound() {
    let u = t("int").union(t("[float]"));
    assert_eq!(u, t("int | [float]"));
    assert!(t("int").matches(&u));
    assert!(t("[float]").matches(&u));
    assert!(u.matches(&t("int | [float] | string")));
    assert!(!u.matches(&t("int")));
    assert_eq!(t("int").union(t("int")), t("int"));
    assert_eq!(t("never").union(t("int")), t("int"));
}

#[test]
fn type_text_and_parse() {
    for text in ["int", "float", "bool", "string", "()", "any", "never", "[int]", "(int, float)", "int | string", "function(int, string)->bool", "mut int"] {
        assert_eq!(t(text).to_string(), text);
    }
    assert_eq!(t("function( int ,string ) -> bool").to_string(), "function(int, string)->bool");
    assert!(parse("int |").is_err());
    assert!(parse("[int").is_err());
    assert!(parse("integer").is_err());
}

#[test]
fn type_parts() {
    assert_eq!(t("[int]").element_type(), Some(t("int")));
    assert_eq!(t("[int] | [float]").element_type(), Some(t("int | float")));
    assert_eq!(t("int").element_type(), None);
    assert_eq!(t("function(int)->string").return_type(), Some(t("string")));
    assert_eq!(t("int").return_type(), None);
}

#[test]
fn param_and_function_text() {
    let params = Params(vec![Param::new("a", t("int")), Param::new("b", t("[string]"))]);
    assert_eq!(params.0[0].to_string(), "a: int");
    assert_eq!(params.to_string(), "a: int, b: [string]");
    assert_eq!(Params(vec![]).to_string(), "");
    let f = Function::new(params, t("bool"), vec![]);
    assert_eq!(f.to_string(), "(a: int, b: [string])->bool");
    assert_eq!(f.as_type(), t("function(int, [string])->bool"));
}

#[test]
fn check_args_errors() {
    let params = Params(vec![Param::new("a", t("int")), Param::new("b", t("string"))]);
    assert!(check_args("f", &params, &[t("int"), t("string")]).is_ok());
    assert!(check_args("f", &params, &[t("never"), t("string")]).is_ok());
    match check_args("f", &params, &[t("int")]) {
        Err(Error::WrongNumberOfArguments(name, n)) => {
            assert_eq!(name, "f");
            assert_eq!(n, 2);
        }
        other => panic!("unexpected {other:?}"),
    }
    match check_args("f", &params, &[t("float"), t("float")]) {
        Err(Error::WrongType(name, ty)) => {
            assert_eq!(name, "a");
            assert_eq!(ty, t("int"));
        }
        other => panic!("unexpected {other:?}"),
    }
}

fn first_or_void(args: &Vec<Variable>) -> Result<Variable, Error> {
    match args.first() {
        Some(v) => Ok(v.clone()),
        None => Ok(Variable::Void),
    }
}

#[test]
fn native_function_checks_then_runs() {
    let f = NativeFunction {
        params: Params(vec![Param::new("x", t("int"))]),
        return_type: t("int"),
        body: first_or_void,
    };
    assert_eq!(f.get_type(), t("function(int)->int"));
    assert_eq!(f.get_return_type(), t("int"));
    assert_eq!(f.get_params().len(), 1);
    assert_eq!(f.check_args_and_exec("f", &vec![Variable::Int(3)]).unwrap(), Variable::Int(3));
    assert!(matches!(
        f.check_args_and_exec("f", &vec![Variable::Bool(true)]),
        Err(Error::WrongType(..))
    ));
    assert!(matches!(
        f.check_args_and_exec("f", &vec![]),
        Err(Error::WrongNumberOfArguments(..))
    ));
    assert_eq!(f.exec(&vec![]).unwrap(), Variable::Void);
}

#[test]
fn string_literals_are_unescaped() {
    assert_eq!(string_literal("abc").unwrap(), Variable::String("abc".to_string()));
    assert_eq!(string_literal("a\\nb").unwrap(), Variable::String("a\nb".to_string()));
    assert_eq!(string_literal("\\\"q\\\"").unwrap(), Variable::String("\"q\"".to_string()));
    assert_eq!(string_literal("\\u{48}i").unwrap(), Variable::String("Hi".to_string()));
    match string_literal("end\\") {
        Err(Error::CannotUnescapeString(m)) => assert_eq!(m, "incomplete str, break at 3"),
        other => panic!("unexpected {other:?}"),
    }
    match literal_from_unescaped(Err("bad".to_string())) {
        Err(Error::CannotUnescapeString(m)) => assert_eq!(m, "bad"),
        other => panic!("unexpected {other:?}"),
    }
}

#[test]
fn error_equality_is_an_equivalence_on_examples() {
    let a = Error::WrongType("x".to_string(), t("int"));
    let b = Error::WrongType("x".to_string(), t("int"));
    let c = Error::WrongType("y".to_string(), t("int"));
    assert!(a.equals(&a));
    assert!(a.equals(&b) && b.equals(&a));
    assert!(!a.equals(&c) && !c.equals(&a));
    // only the kind counts for a wrong length type
    assert!(Error::WrongLengthType("1".to_string()).equals(&Error::WrongLengthType("2".to_string())));
    assert!(!Error::ZeroDivision.equals(&Error::ZeroModulo));
}

#[test]
fn error_messages() {
    assert_eq!(Error::from(ExecError::OverflowShift).to_string(), "Cannot shift with overflow");
    assert_eq!(ExecError::NegativeLength.to_string(), "length of an array cannot be negative");
    assert_eq!(
        Error::WrongLengthType("2.5".to_string()).to_string(),
        "Cannot create array of length 2.5. Length must be int"
    );
    assert_eq!(Error::CannotUnescapeString("msg".to_string()).to_string(), "msg");
}
