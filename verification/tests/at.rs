use simplesl::errors::error::Error;
use simplesl::errors::exec_error::ExecError;
use simplesl::instruction::at::{check, exec as at, range};
use simplesl::variable::type_parse::parse;
use simplesl::variable::value::Variable;

fn string(text: &str) -> Variable {
    Variable::String(text.to_string())
}

fn float(x: f64) -> Variable {
    Variable::Float(x.to_bits())
}

#[test]
fn check_at() {
    let array = Variable::Array(vec![Variable::Int(4), float(5.5), string("var")]);
    assert_eq!(at(array.clone(), Variable::Int(0)), Ok(Variable::Int(4)));
    assert_eq!(at(array.clone(), Variable::Int(1)), Ok(float(5.5)));
    assert_eq!(at(array.clone(), Variable::Int(2)), Ok(string("var")));
    assert_eq!(at(array.clone(), Variable::Int(-1)), Ok(string("var")));
    assert_eq!(at(array, Variable::Int(3)), Err(ExecError::IndexOutOfBounds));
    let text = string("tex");
    assert_eq!(at(text.clone(), Variable::Int(0)), Ok(string("t")));
    assert_eq!(at(text.clone(), Variable::Int(2)), Ok(string("x")));
    assert_eq!(at(text.clone(), Variable::Int(3)), Err(ExecError::IndexOutOfBounds));
    assert_eq!(at(text, Variable::Int(-1)), Ok(string("x")))
}

#[test]
fn at_negative_index_before_the_start() {
    let array = Variable::Array(vec![Variable::Int(1), Variable::Int(2)]);
    assert_eq!(at(array.clone(), Variable::Int(-2)), Ok(Variable::Int(1)));
    assert_eq!(at(array, Variable::Int(-3)), Err(ExecError::IndexOutOfBounds));
    assert_eq!(at(string(""), Variable::Int(0)), Err(ExecError::IndexOutOfBounds));
    assert_eq!(at(string("żółw"), Variable::Int(1)), Ok(string("ó")));
}

#[test]
fn at_range_of_indices() {
    let r = range(3);
    assert_eq!(r.start, -3);
    assert_eq!(r.end, 3);
    assert!(r.contains(&-3));
    assert!(!r.contains(&3));
}

#[test]
fn at_check_of_operand_types() {
    let int = parse("int").unwrap();
    assert!(check(&parse("[int]").unwrap(), "0", &int).is_ok());
    assert!(check(&parse("string").unwrap(), "0", &int).is_ok());
    assert!(check(&parse("string | [float]").unwrap(), "0", &int).is_ok());
    match check(&parse("int").unwrap(), "0", &int) {
        Err(Error::CannotIndexInto(t)) => assert_eq!(t, parse("int").unwrap()),
        other => panic!("unexpected {other:?}"),
    }
    match check(&parse("[int]").unwrap(), "1.5", &parse("float").unwrap()) {
        Err(Error::CannotIndexWith(s)) => assert_eq!(s, "1.5"),
        other => panic!("unexpected {other:?}"),
    }
}
