use simplesl::instruction::add::{return_type as add_return_type, Add};
use simplesl::instruction::array::Array;
use simplesl::instruction::array_ops::filter::Filter;
use simplesl::instruction::array_ops::type_filter::TypeFilter;
use simplesl::instruction::array_repeat::ArrayRepeat;
use simplesl::instruction::at::exec as at;
use simplesl::instruction::bin::bin_not::BinNot;
use simplesl::instruction::bin::bin_or::BinOr;
use simplesl::variable::type_parse::parse;
use simplesl::variable::value::Variable;
use simplesl::variable::var_type::Type;

fn t(text: &str) -> Type {
    parse(text).unwrap()
}

fn s(text: &str) -> Variable {
    Variable::String(text.to_string())
}

#[test]
fn results_have_the_checked_types() {
    let ints = Variable::Array(vec![Variable::Int(1), Variable::Int(2)]);
    let or = BinOr::bin_or(&ints, &Variable::Int(8));
    assert!(or.as_type().matches(&BinOr::return_type(&t("[int]"), &t("int"))));
    let not = BinNot::bin_not(&ints);
    assert!(not.as_type().matches(&BinNot::return_type(&t("[int]"))));
    let sum = Add::exec(&s("a"), &s("b"));
    assert!(sum.as_type().matches(&add_return_type(&t("string"), &t("string"))));

    let mixed = vec![Variable::Int(1), s("x"), Variable::Bool(false)];
    let kept = Variable::Array(TypeFilter::exec(&mixed, &t("int | bool")));
    assert!(kept.as_type().matches(&TypeFilter::return_type(&t("int | bool"))));

    let array = Variable::Array(mixed.clone());
    let not_first = |args: Vec<Variable>| match &args[0] {
        Variable::Int(i) => Ok(Variable::Int((*i != 0) as i64)),
        _ => Ok(Variable::Int(0)),
    };
    let filtered = Variable::Array(Filter::exec(&mixed, 2, &not_first).unwrap());
    assert!(filtered.as_type().matches(&array.as_type()));

    let repeated = ArrayRepeat::exec(&s("a"), 2).unwrap();
    assert!(repeated.as_type().matches(&ArrayRepeat::return_type(&t("string"))));

    let literal = Variable::Array(vec![Variable::Int(1), s("b")]);
    let element_type = Array::element_type(&vec![t("int"), t("string")]);
    assert!(literal.as_type().matches(&Array::return_type(&element_type)));

    let element = at(array.clone(), Variable::Int(1)).unwrap();
    assert!(element.as_type().matches(&array.as_type().index_result().unwrap()));
}
