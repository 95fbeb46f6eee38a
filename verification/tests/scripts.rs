use simplesl::errors::error::Error;
use simplesl::errors::exec_error::ExecError;
use simplesl::bin_operator::BinOperator;
use simplesl::interpreter::code::Code;
use simplesl::interpreter::reader::ParseTree;
use simplesl::interpreter::script::parse_script;
use simplesl::variable::value::Variable;

const FUEL: u64 = 1000;

fn run(text: &str) -> Option<Result<Variable, ExecError>> {
    Code::parse(text).unwrap().exec(FUEL)
}

fn s(v: &str) -> Variable {
    Variable::String(v.to_string())
}

#[test]
fn hello_tom_is_captured() {
    let script = "name = \"Tom\"\nx = () -> string { \"Hello \" + name }\nname = \"Jerry\"\nx()";
    assert_eq!(run(script), Some(Ok(s("Hello Tom"))));
}

#[test]
fn arguments_are_run_left_to_right() {
    let script = "pair = (x: int, y: int) -> [int] { [x, y] }; pair(a = 1, a)";
    assert_eq!(
        run(script),
        Some(Ok(Variable::Array(vec![Variable::Int(1), Variable::Int(1)])))
    );
}

#[test]
fn operator_precedence() {
    assert_eq!(run("1 + 2 == 3 && 4 >> 1 == 2"), Some(Ok(Variable::Bool(true))));
    assert_eq!(run("[1, 2] | 4"), Some(Ok(Variable::Array(vec![Variable::Int(5), Variable::Int(6)]))));
    assert_eq!(run("5 ^ 3 | 8"), Some(Ok(Variable::Int(14))));
    assert_eq!(run("\"tex\"[1]"), Some(Ok(s("e"))));
    assert_eq!(run("[[1, 2], [3]][0][1]"), Some(Ok(Variable::Int(2))));
    assert_eq!(run("(1 + 2) == 3"), Some(Ok(Variable::Bool(true))));
    assert_eq!(run("1 == 2 || 3 != 4"), Some(Ok(Variable::Bool(true))));
}

#[test]
fn loops_and_escapes() {
    assert_eq!(run("loop { a = 1; break }\na"), Some(Ok(Variable::Int(1))));
    assert_eq!(run("\"a\\nb\""), Some(Ok(s("a\nb"))));
    assert_eq!(run(""), Some(Ok(Variable::Void)));
    assert_eq!(run("[1][5]"), Some(Err(ExecError::IndexOutOfBounds)));
    assert_eq!(Code::parse("loop { continue }").unwrap().exec(50), None);
}

#[test]
fn refused_texts() {
    assert!(matches!(Code::parse("1 +"), Err(Error::Parsing(_))));
    assert!(matches!(Code::parse("[1, 2"), Err(Error::Parsing(_))));
    assert!(matches!(Code::parse("9223372036854775808"), Err(Error::Parsing(_))));
    assert!(Code::parse("9223372036854775807").is_ok());
    assert!(matches!(Code::parse("x"), Err(Error::VariableDoesntExist(_))));
    assert!(matches!(Code::parse("break"), Err(Error::BreakOutsideLoop)));
    assert!(matches!(Code::parse("1 + \"a\""), Err(Error::CannotDo2(..))));
    assert_eq!(parse_script("a = 1; a").unwrap().len(), 2);
}

#[test]
fn filter_and_map_call_the_function_on_each_element() {
    let ints = |xs: &[i64]| Variable::Array(xs.iter().map(|x| Variable::Int(*x)).collect());
    assert_eq!(run("[1, 2, 3] @ (x: int) -> int { x + 10 }"), Some(Ok(ints(&[11, 12, 13]))));
    assert_eq!(run("[5, 0, 7] ? (x: int) -> int { x }"), Some(Ok(ints(&[5, 7]))));
    assert_eq!(run("[7, 8] @ (i: int, x: int) -> int { i }"), Some(Ok(ints(&[0, 1]))));
    assert_eq!(run("[4, 5, 6] ? (i: int, x: int) -> int { i >> 1 }"), Some(Ok(ints(&[6]))));
    assert_eq!(run("k = 100; [1] @ (x: int) -> int { x + k }"), Some(Ok(ints(&[101]))));
    assert_eq!(
        run("[1, 2] @ (x: int) -> int { [x][3] }"),
        Some(Err(ExecError::IndexOutOfBounds))
    );
}

#[test]
fn more_fuel_gives_the_same_result() {
    let code = Code::parse("f = (x: int) -> int { x + 1 }; f(f(1))").unwrap();
    assert_eq!(code.exec(3), Some(Ok(Variable::Int(3))));
    assert_eq!(code.exec(1000), Some(Ok(Variable::Int(3))));
    assert_eq!(code.exec(1), Some(Ok(Variable::Int(3))));
    assert_eq!(code.exec(0), None);
}

#[test]
fn filter_and_map_bind_tighter_than_add() {
    let id = |n: &str| Box::new(ParseTree::Ident(n.to_string()));
    let expected = ParseTree::Infix(
        id("a"),
        BinOperator::Add,
        Box::new(ParseTree::Infix(
            Box::new(ParseTree::Infix(id("b"), BinOperator::MapOp, id("c"))),
            BinOperator::Filter,
            id("d"),
        )),
    );
    assert_eq!(parse_script("a + b @ c ? d").unwrap(), vec![expected]);
}

#[test]
fn arithmetic_comparison_and_bitwise_operators() {
    let int = |x: i64| Some(Ok(Variable::Int(x)));
    assert_eq!(run("2 ** 3"), int(8));
    assert_eq!(run("1 + 2 * 3"), int(7));
    assert_eq!(run("2 * 3 ** 2"), int(18));
    assert_eq!(run("10 - 4 - 3"), int(3));
    assert_eq!(run("(0 - 7) / 2"), int(-3));
    assert_eq!(run("(0 - 7) % 3"), int(-1));
    assert_eq!(run("6 & 3 | 8"), int(10));
    assert_eq!(run("1 << 3 + 1"), int(16));
    assert_eq!(run("1 < 2 && 2 <= 2 && 3 > 2 && 3 >= 4"), Some(Ok(Variable::Bool(false))));
    assert_eq!(run("3 >= 3"), Some(Ok(Variable::Bool(true))));
    assert_eq!(
        run("[1, 2, 3] * 2"),
        Some(Ok(Variable::Array(vec![Variable::Int(2), Variable::Int(4), Variable::Int(6)])))
    );
    assert_eq!(
        run("10 - [1, 2]"),
        Some(Ok(Variable::Array(vec![Variable::Int(9), Variable::Int(8)])))
    );
    assert_eq!(run("1 / 0"), Some(Err(ExecError::ZeroDivision)));
    assert_eq!(run("[4, 0] ** (0 - 1)"), Some(Err(ExecError::NegativeExponent)));
    assert_eq!(run("2 ** 62 * 4"), None);
}

#[test]
fn refusals_name_their_cause() {
    assert!(matches!(Code::parse("x"), Err(Error::VariableDoesntExist(n)) if n == "x"));
    assert!(matches!(Code::parse("break"), Err(Error::BreakOutsideLoop)));
    assert!(matches!(Code::parse("continue"), Err(Error::ContinueOutsideLoop)));
    assert!(matches!(Code::parse("loop { (x: int) -> int { break } }"), Err(Error::BreakOutsideLoop)));
    assert!(matches!(Code::parse("[1] < 2"), Err(Error::CannotDo2(..))));
    assert!(matches!(Code::parse("1 ++ 2"), Err(Error::Parsing(t)) if t == "1 ++ 2"));
}

#[test]
fn a_captured_operation_is_folded() {
    let script = "name = \"Tom\"\nx = () -> string { \"Hello \" + name }\nx";
    let code = Code::parse(script).unwrap();
    let value = code.exec(FUEL);
    match value {
        Some(Ok(Variable::Function(f))) => assert_eq!(
            f.body,
            vec![simplesl::interpreter::instruction::Instruction::Variable(s("Hello Tom"))]
        ),
        other => panic!("unexpected {other:?}"),
    }
}

#[test]
fn a_function_can_call_itself() {
    let script = "down = (n: int) -> bool { n == 0 || down(n - 1) }; down(5)";
    assert_eq!(run(script), Some(Ok(Variable::Bool(true))));
    assert_eq!(run("f = (n: int) -> int { f(n) }; f(1)"), None);
    assert!(matches!(Code::parse("g = (n: int) -> int { h(n) }"), Err(Error::VariableDoesntExist(n)) if n == "h"));
}

#[test]
fn boolean_literals() {
    assert_eq!(run("true && false"), Some(Ok(Variable::Bool(false))));
    assert_eq!(run("1 < 2 == true"), Some(Ok(Variable::Bool(true))));
    assert_eq!(run("falsey = 1; falsey"), Some(Ok(Variable::Int(1))));
}

#[test]
fn if_else_runs_one_block() {
    assert_eq!(run("if 1 < 2 { 10 } else { 20 }"), Some(Ok(Variable::Int(10))));
    assert_eq!(run("if false { 1 }"), Some(Ok(Variable::Void)));
    assert_eq!(run("x = 1; if true { x = 2 }; x"), Some(Ok(Variable::Int(1))));
    assert_eq!(run("n = 0; loop { n = n + 1; if n == 5 { break } }; n"), Some(Ok(Variable::Int(5))));
    let fact = "fact = (n: int) -> int { if n == 0 { 1 } else { n * fact(n - 1) } }; fact(5)";
    assert_eq!(run(fact), Some(Ok(Variable::Int(120))));
    assert!(matches!(
        Code::parse("if 1 { 2 }"),
        Err(Error::WrongCondition(text, simplesl::variable::var_type::Type::Int)) if text == "1"
    ));
    assert!(matches!(Code::parse("if true { break }"), Err(Error::BreakOutsideLoop)));
}

#[test]
fn comments_are_skipped() {
    assert_eq!(run("// one line comment\n1 + 2"), Some(Ok(Variable::Int(3))));
    assert_eq!(run("/*\nMultiline comment\n*/\n5"), Some(Ok(Variable::Int(5))));
    assert_eq!(run("x = 5 // int\nx"), Some(Ok(Variable::Int(5))));
    assert_eq!(
        run("[1, /* two */ 2]"),
        Some(Ok(Variable::Array(vec![Variable::Int(1), Variable::Int(2)])))
    );
    assert_eq!(run("4 / 2"), Some(Ok(Variable::Int(2))));
    assert!(matches!(Code::parse("1 /* open"), Err(Error::Parsing(_))));
}

#[test]
fn repeated_array_literal() {
    let zeros = Variable::Array(vec![Variable::Int(0); 5]);
    assert_eq!(run("[0; 5]"), Some(Ok(zeros)));
    assert_eq!(run("x = [\"a\"; 3]; x[2]"), Some(Ok(s("a"))));
    assert_eq!(run("[1; 0 - 1]"), Some(Err(ExecError::NegativeLength)));
    assert_eq!(run("[]"), Some(Ok(Variable::Array(vec![]))));
    assert_eq!(run("[[1], [2, 3]][1][0]"), Some(Ok(Variable::Int(2))));
    assert!(matches!(Code::parse("[1; \"a\"]"), Err(Error::WrongLengthType(t)) if t == "\"a\""));
}
