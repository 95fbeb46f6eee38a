use simplesl::errors::error::Error;
use simplesl::errors::exec_error::ExecError;
use simplesl::instruction::add::Add;
use simplesl::instruction::array::Array;
use simplesl::instruction::array_ops::filter::Filter;
use simplesl::instruction::array_ops::map::MapOp;
use simplesl::instruction::array_ops::reduce::{Reduce, ReduceCheck};
use simplesl::instruction::array_ops::type_filter::TypeFilter;
use simplesl::instruction::array_repeat::ArrayRepeat;
use simplesl::instruction::bin::bin_not::BinNot;
use simplesl::instruction::bin::bin_or::BinOr;
use simplesl::instruction::bin::rshift::RShift;
use simplesl::instruction::bin::xor::Xor;
use simplesl::instruction::bin_op::{equal, not_equal};
use simplesl::instruction::exec_stop::ExecStop;
use simplesl::variable::type_parse::parse;
use simplesl::variable::value::Variable;
use simplesl::variable::var_type::Type;

fn t(text: &str) -> Type {
    parse(text).unwrap()
}

fn ints(xs: &[i64]) -> Variable {
    Variable::Array(xs.iter().map(|x| Variable::Int(*x)).collect())
}

fn s(text: &str) -> Variable {
    Variable::String(text.to_string())
}

#[test]
fn bin_or_of_integers_and_arrays() {
    assert_eq!(BinOr::bin_or(&Variable::Int(5), &Variable::Int(2)), Variable::Int(7));
    assert_eq!(BinOr::bin_or(&ints(&[1, 2]), &Variable::Int(4)), ints(&[5, 6]));
    assert_eq!(BinOr::bin_or(&Variable::Int(8), &ints(&[1, 8])), ints(&[9, 8]));
    assert_eq!(BinOr::bin_or(&ints(&[]), &Variable::Int(4)), ints(&[]));
    assert_eq!(BinOr::bin_or(&Variable::Int(4), &ints(&[])), ints(&[]));
    assert_eq!(BinOr::return_type(&t("int"), &t("[int]")), t("[int]"));
    assert_eq!(BinOr::return_type(&t("[int]"), &t("int")), t("[int]"));
    assert_eq!(BinOr::return_type(&t("int"), &t("int")), t("int"));
}

#[test]
fn bin_not_of_integers_and_arrays() {
    assert_eq!(BinNot::bin_not(&Variable::Int(0)), Variable::Int(-1));
    assert_eq!(BinNot::bin_not(&Variable::Int(5)), Variable::Int(-6));
    assert_eq!(BinNot::bin_not(&Variable::Int(i64::MIN)), Variable::Int(i64::MAX));
    assert_eq!(BinNot::bin_not(&ints(&[0, -1])), ints(&[-1, 0]));
    assert!(BinNot::can_be_used(&t("int")));
    assert!(BinNot::can_be_used(&t("[int]")));
    assert!(!BinNot::can_be_used(&t("float")));
    assert!(!BinNot::can_be_used(&t("[float]")));
}

#[test]
fn rshift_in_and_out_of_range() {
    assert_eq!(RShift::exec(&Variable::Int(16), &Variable::Int(2)), Ok(Variable::Int(4)));
    assert_eq!(RShift::exec(&Variable::Int(-16), &Variable::Int(2)), Ok(Variable::Int(-4)));
    assert_eq!(RShift::exec(&Variable::Int(1), &Variable::Int(63)), Ok(Variable::Int(0)));
    assert_eq!(RShift::exec(&Variable::Int(1), &Variable::Int(64)), Err(ExecError::OverflowShift));
    assert_eq!(RShift::exec(&Variable::Int(1), &Variable::Int(-1)), Err(ExecError::OverflowShift));
}

#[test]
fn xor_of_integers() {
    assert_eq!(Xor::exec(&Variable::Int(6), &Variable::Int(3)), Variable::Int(5));
    assert_eq!(Xor::exec(&Variable::Int(-1), &Variable::Int(0)), Variable::Int(-1));
}

#[test]
fn add_integers_and_strings() {
    assert_eq!(Add::exec(&Variable::Int(2), &Variable::Int(40)), Variable::Int(42));
    assert_eq!(Add::exec(&s("ab"), &s("cd")), s("abcd"));
    assert_eq!(Add::exec(&s(""), &s("x")), s("x"));
}

#[test]
fn array_literal_element_type() {
    assert_eq!(Array::element_type(&vec![]), Type::Never);
    assert_eq!(Array::element_type(&vec![t("int")]), t("int"));
    assert_eq!(Array::element_type(&vec![t("int"), t("int")]), t("int"));
    assert_eq!(Array::element_type(&vec![t("int"), t("float"), t("int")]), t("int | float"));
    assert_eq!(Array::return_type(&t("int")), t("[int]"));
}

#[test]
fn array_repeat_copies_and_errors() {
    assert_eq!(ArrayRepeat::exec(&Variable::Int(7), 3), Ok(ints(&[7, 7, 7])));
    assert_eq!(ArrayRepeat::exec(&s("a"), 0), Ok(Variable::Array(vec![])));
    assert_eq!(ArrayRepeat::exec(&Variable::Int(7), -1), Err(ExecError::NegativeLength));
    assert!(ArrayRepeat::check(&t("int"), "3").is_ok());
    assert!(ArrayRepeat::check(&t("never"), "3").is_ok());
    match ArrayRepeat::check(&t("float"), "2.5") {
        Err(Error::WrongLengthType(text)) => assert_eq!(text, "2.5"),
        other => panic!("unexpected {other:?}"),
    }
    assert_eq!(ArrayRepeat::return_type(&t("string")), t("[string]"));
}

#[test]
fn type_filter_keeps_matching_elements() {
    let array = Variable::Array(vec![Variable::Int(1), s("a"), Variable::Int(2), Variable::Bool(true)]);
    assert_eq!(TypeFilter::exec(&vec![Variable::Int(1), s("a"), Variable::Int(2)], &t("int")), vec![Variable::Int(1), Variable::Int(2)]);
    if let Variable::Array(xs) = &array {
        assert_eq!(TypeFilter::exec(xs, &t("int | bool")).len(), 3);
        assert_eq!(TypeFilter::exec(xs, &t("any")).len(), 4);
        assert_eq!(TypeFilter::exec(xs, &t("float")).len(), 0);
    }
    assert!(TypeFilter::check(t("[int]"), t("int")).is_ok());
    assert!(matches!(TypeFilter::check(t("int"), t("int")), Err(Error::CannotDo2(..))));
    assert_eq!(TypeFilter::return_type(&t("int")), t("[int]"));
}

#[test]
fn filter_with_a_function() {
    let array = vec![Variable::Int(1), Variable::Int(2), Variable::Int(3), Variable::Int(4)];
    let even = |args: Vec<Variable>| match &args[0] {
        Variable::Int(x) => Ok(Variable::Int(((x % 2) == 0) as i64)),
        _ => Ok(Variable::Int(0)),
    };
    assert_eq!(Filter::exec(&array, 1, &even), Ok(vec![Variable::Int(2), Variable::Int(4)]));
    let by_index = |args: Vec<Variable>| match &args[0] {
        Variable::Int(i) => Ok(Variable::Int((*i < 2) as i64)),
        _ => Ok(Variable::Int(0)),
    };
    assert_eq!(Filter::exec(&array, 2, &by_index), Ok(vec![Variable::Int(1), Variable::Int(2)]));
    let failing = |_args: Vec<Variable>| Err(ExecError::ZeroDivision);
    assert_eq!(Filter::exec(&array, 1, &failing), Err(ExecError::ZeroDivision));
    assert!(Filter::can_be_used(&t("[int]"), &t("function(int)->int")));
    assert!(Filter::can_be_used(&t("[int]"), &t("function(int, int)->int")));
    assert!(!Filter::can_be_used(&t("[int]"), &t("function(int)->float")));
    assert!(!Filter::can_be_used(&t("int"), &t("function(int)->int")));
}

#[test]
fn map_with_a_function() {
    let array = vec![Variable::Int(1), Variable::Int(2)];
    let double = |args: Vec<Variable>| match &args[0] {
        Variable::Int(x) => Ok(Variable::Int(x * 2)),
        _ => Ok(Variable::Void),
    };
    assert_eq!(MapOp::exec(&array, 1, &double), Ok(vec![Variable::Int(2), Variable::Int(4)]));
    let add = |args: Vec<Variable>| match (&args[0], &args[1]) {
        (Variable::Int(x), Variable::Int(y)) => Ok(Variable::Int(x + y)),
        _ => Ok(Variable::Void),
    };
    let arrays = vec![ints(&[1, 2, 3]), ints(&[10, 20])];
    assert_eq!(MapOp::zip_map(&arrays, 2, &add), Ok(vec![Variable::Int(11), Variable::Int(22)]));
}

#[test]
fn reduce_folds_from_the_initial_value() {
    let array = vec![Variable::Int(1), Variable::Int(2), Variable::Int(3)];
    let add = |args: Vec<Variable>| match (&args[0], &args[1]) {
        (Variable::Int(x), Variable::Int(y)) => Ok(Variable::Int(x + y)),
        _ => Ok(Variable::Void),
    };
    assert_eq!(Reduce::exec(&array, Variable::Int(10), &add), Ok(Variable::Int(16)));
    assert_eq!(Reduce::exec(&vec![], Variable::Int(10), &add), Ok(Variable::Int(10)));
    let failing = |_args: Vec<Variable>| Err(ExecError::ZeroModulo);
    assert_eq!(Reduce::exec(&array, Variable::Int(0), &failing), Err(ExecError::ZeroModulo));
}

#[test]
fn reduce_type_check() {
    assert!(matches!(
        Reduce::check(&t("[int]"), &t("int"), &t("function(int, int)->int")),
        Ok(ReduceCheck::Fold)
    ));
    assert!(matches!(
        Reduce::check(&t("[never]"), &t("int"), &t("int")),
        Ok(ReduceCheck::InitialValue)
    ));
    match Reduce::check(&t("int"), &t("int"), &t("function(int, int)->int")) {
        Err(Error::WrongType(name, ty)) => {
            assert_eq!(name, "array");
            assert_eq!(ty, t("[any]"));
        }
        other => panic!("unexpected {other:?}"),
    }
    match Reduce::check(&t("[int]"), &t("int"), &t("int")) {
        Err(Error::WrongType(name, ty)) => {
            assert_eq!(name, "function");
            assert_eq!(ty, t("function(any, int)->any"));
        }
        other => panic!("unexpected {other:?}"),
    }
    match Reduce::check(&t("[int]"), &t("float"), &t("function(int, int)->int")) {
        Err(Error::WrongType(name, ty)) => {
            assert_eq!(name, "function");
            assert_eq!(ty, t("function(float | int, int)->int"));
        }
        other => panic!("unexpected {other:?}"),
    }
    assert_eq!(Reduce::return_type(&t("float"), &t("function(int, int)->int")), t("int | float"));
}

#[test]
fn equality_of_values() {
    assert_eq!(equal::exec(Variable::Int(1), Variable::Int(1)), Variable::Bool(true));
    assert_eq!(equal::exec(Variable::Int(1), s("1")), Variable::Bool(false));
    assert_eq!(equal::exec(Variable::Float(0.0f64.to_bits()), Variable::Float((-0.0f64).to_bits())), Variable::Bool(true));
    assert_eq!(equal::exec(Variable::Float(f64::NAN.to_bits()), Variable::Float(f64::NAN.to_bits())), Variable::Bool(false));
    assert_eq!(equal::exec(ints(&[1, 2]), ints(&[1, 2])), Variable::Bool(true));
    assert_eq!(not_equal::exec(ints(&[1, 2]), ints(&[1])), Variable::Bool(true));
    assert_eq!(not_equal::exec(s("a"), s("a")), Variable::Bool(false));
}

#[test]
fn exec_stop_from_exec_error() {
    let stop: ExecStop = ExecError::NegativeLength.into();
    assert!(matches!(stop, ExecStop::Error(ExecError::NegativeLength)));
}
