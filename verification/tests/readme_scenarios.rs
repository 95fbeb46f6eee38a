use simplesl::instruction::array_repeat::ArrayRepeat;
use simplesl::variable::literal::string_literal;
use simplesl::variable::type_parse::parse;
use simplesl::variable::value::Variable;
use simplesl::variable::var_type::Type;

#[test]
fn array_of_five_zeros() {
    let zeros = ArrayRepeat::exec(&Variable::Int(0), 5).unwrap();
    assert_eq!(zeros, Variable::Array(vec![Variable::Int(0); 5]));
}

#[test]
fn string_with_a_new_line() {
    assert_eq!(
        string_literal("Hello\\n world").unwrap(),
        Variable::String("Hello\n world".to_string())
    );
}

#[test]
fn types_of_the_function_examples() {
    assert_eq!(
        parse("function()->()").unwrap(),
        Type::function(vec![], Type::Void)
    );
    assert_eq!(
        parse("function(float, float, float)->float").unwrap(),
        Type::function(vec![Type::Float, Type::Float, Type::Float], Type::Float)
    );
    assert_eq!(parse("any").unwrap(), Type::Any);
}

#[test]
fn printed_types_read_back() {
    for text in [
        "int | [float] | (string, bool)",
        "function(int | float, [any])->(int | string)",
        "mut (int | float)",
        "[function()->() | never]",
        "((int, int), ())",
        "function()->function(int)->int",
    ] {
        let t = parse(text).unwrap();
        assert_eq!(parse(&t.to_string()).unwrap(), t, "{text}");
    }
    // a union with `never` or a repeated alternative reads back as its canonical form
    assert_eq!(parse("int | never | int").unwrap().to_string(), "int");
}
