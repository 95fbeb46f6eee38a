use simplesl::instruction::array_ops::map::MapOp;
use simplesl::variable::type_parse::parse;
use simplesl::variable::var_type::Type;

fn parse_type(text: &str) -> Type {
    parse(text).unwrap()
}

#[test]
fn can_be_used() {
    let int_array = parse_type("[int]");
    let float_array = parse_type("[float]");
    // true
    assert!(MapOp::can_be_used(&int_array, &parse_type("function(int)->int")));
    assert!(MapOp::can_be_used(&int_array, &parse_type("function(int|float)->any")));
    assert!(MapOp::can_be_used(&int_array, &parse_type("function(int, any)->int")));
    assert!(MapOp::can_be_used(&int_array, &parse_type("function(any, any)->float")));
    assert!(MapOp::can_be_used(
        &(int_array.clone().union(float_array.clone())),
        &parse_type("function(int | float)->int")
    ));
    assert!(MapOp::can_be_used(
        &(int_array.clone().union(float_array.clone())),
        &parse_type("function(int, int | float)->int")
    ));
    assert!(MapOp::can_be_used(
        &(int_array.clone().union(float_array.clone())),
        &parse_type("function(any, any)->int")
    ));
    assert!(MapOp::can_be_used(
        &int_array,
        &parse_type("function(int)->int | function(any)->any")
    ));
    assert!(MapOp::can_be_used(
        &int_array,
        &parse_type("function(int, any)->int | function(any)->any")
    ));
    assert!(MapOp::can_be_used(
        &int_array,
        &parse_type("function(any, any)->float | function(int | float)->int")
    ));
    assert!(MapOp::can_be_used(
        &(int_array.clone().union(float_array.clone())),
        &parse_type("function(int, int | float)->int | function(int | float)->float")
    ));
    assert!(MapOp::can_be_used(
        &parse_type("([int], [float], [string])"),
        &parse_type("function(int, float, string) -> any")
    ));
    assert!(MapOp::can_be_used(
        &parse_type("([int], [float]|[string|int], [string])"),
        &parse_type(
            "function(int, int|float|string, string) -> float\
            | function(int | float, any, any, any) -> any"
        )
    ));
    assert!(MapOp::can_be_used(
        &parse_type("([int], [float])|([string], [any])"),
        &parse_type("function(int | string, any) -> any | function(any, any, any) -> ()")
    ));
    // false
    assert!(!MapOp::can_be_used(
        &(int_array.clone().union(float_array.clone())),
        &parse_type("function(int, int)->int")
    ));
    assert!(!MapOp::can_be_used(
        &(int_array.clone().union(float_array.clone())),
        &parse_type("function(int, int | float, any)->int")
    ));
    assert!(!MapOp::can_be_used(
        &(int_array.clone().union(float_array.clone())),
        &parse_type("function(any, float)->int")
    ));
    assert!(!MapOp::can_be_used(
        &int_array,
        &parse_type("function(int)->int | int")
    ));
    assert!(!MapOp::can_be_used(
        &(int_array.clone().union(Type::Float)),
        &parse_type("function(int, any)->int | function(any)->any")
    ));
    assert!(!MapOp::can_be_used(
        &(int_array.clone().union(Type::tuple(vec![int_array.clone(), float_array.clone()]))),
        &parse_type("function(any, any)->float | function(int | float)->int")
    ));
}
