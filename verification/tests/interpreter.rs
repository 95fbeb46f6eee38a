use simplesl::bin_operator::BinOperator;
use simplesl::errors::error::Error;
use simplesl::errors::exec_error::ExecError;
use simplesl::function::param::{Param, Params};
use simplesl::interpreter::code::Code;
use simplesl::interpreter::instruction::Instruction;
use simplesl::interpreter::reader::{LocalVariables, ParseTree};
use simplesl::interpreter::state::Interpreter;
use simplesl::interpreter::statement::InstructionWithStr;
use simplesl::variable::type_parse::parse;
use simplesl::variable::value::Variable;
use simplesl::variable::var_type::Type;

const FUEL: u64 = 1000;

fn t(text: &str) -> Type {
    parse(text).unwrap()
}

fn text(s: &str) -> ParseTree {
    ParseTree::Text(s.to_string())
}

fn ident(s: &str) -> ParseTree {
    ParseTree::Ident(s.to_string())
}

fn assign(name: &str, value: ParseTree) -> ParseTree {
    ParseTree::Assignment(name.to_string(), Box::new(value))
}

fn infix(l: ParseTree, op: BinOperator, r: ParseTree) -> ParseTree {
    ParseTree::Infix(Box::new(l), op, Box::new(r))
}

fn call(name: &str, args: Vec<ParseTree>) -> ParseTree {
    ParseTree::Call(name.to_string(), args)
}

fn read(trees: Vec<ParseTree>) -> Result<Code, Error> {
    let mut locals = LocalVariables::new();
    let mut instructions = Vec::new();
    for tree in &trees {
        instructions.push(Instruction::new(tree, &mut locals)?);
    }
    Ok(Code { instructions })
}

fn s(v: &str) -> Variable {
    Variable::String(v.to_string())
}

#[test]
fn a_function_keeps_the_values_it_captured() {
    // name = "Tom"; x = () -> string { "Hello " + name }; name = "Jerry"; x()
    let code = read(vec![
        assign("name", text("Tom")),
        assign(
            "x",
            ParseTree::Function(Params(vec![]), t("string"), vec![infix(
                text("Hello "),
                BinOperator::Add,
                ident("name"),
            )]),
        ),
        assign("name", text("Jerry")),
        call("x", vec![]),
    ])
    .unwrap();
    assert_eq!(code.exec(FUEL), Some(Ok(s("Hello Tom"))));
}

#[test]
fn arguments_run_left_to_right() {
    // pair = (x: int, y: int) -> [int] { [x, y] }; pair(a = 1, a)
    let code = read(vec![
        assign(
            "pair",
            ParseTree::Function(
                Params(vec![Param::new("x", t("int")), Param::new("y", t("int"))]),
                t("[int]"),
                vec![ParseTree::Array(vec![ident("x"), ident("y")])],
            ),
        ),
        call("pair", vec![assign("a", ParseTree::Int(1)), ident("a")]),
    ])
    .unwrap();
    assert_eq!(
        code.exec(FUEL),
        Some(Ok(Variable::Array(vec![Variable::Int(1), Variable::Int(1)])))
    );
}

#[test]
fn and_or_skip_the_right_operand() {
    // (false && (b = true)) then b is not set: reading b is refused
    let skipped = read(vec![infix(
        infix(ParseTree::Int(1), BinOperator::Equal, ParseTree::Int(2)),
        BinOperator::And,
        infix(assign("b", ParseTree::Int(1)), BinOperator::Equal, ParseTree::Int(1)),
    )])
    .unwrap();
    let mut state = Interpreter::new();
    assert_eq!(skipped.exec_unscoped(&mut state, FUEL), Some(Ok(Variable::Bool(false))));
    assert_eq!(state.get("b"), None);
    let run = read(vec![infix(
        infix(ParseTree::Int(1), BinOperator::Equal, ParseTree::Int(1)),
        BinOperator::And,
        infix(assign("b", ParseTree::Int(1)), BinOperator::Equal, ParseTree::Int(1)),
    )])
    .unwrap();
    let mut state = Interpreter::new();
    assert_eq!(run.exec_unscoped(&mut state, FUEL), Some(Ok(Variable::Bool(true))));
    assert_eq!(state.get("b"), Some(Variable::Int(1)));
}

#[test]
fn operators_and_errors_at_run_time() {
    let code = read(vec![
        assign("xs", ParseTree::Array(vec![ParseTree::Int(1), ParseTree::Int(2)])),
        infix(ident("xs"), BinOperator::BitwiseOr, ParseTree::Int(4)),
    ])
    .unwrap();
    assert_eq!(
        code.exec(FUEL),
        Some(Ok(Variable::Array(vec![Variable::Int(5), Variable::Int(6)])))
    );
    let code = read(vec![infix(
        ParseTree::Array(vec![ParseTree::Int(1)]),
        BinOperator::At,
        ParseTree::Int(3),
    )])
    .unwrap();
    assert_eq!(code.exec(FUEL), Some(Err(ExecError::IndexOutOfBounds)));
    let code = read(vec![infix(ParseTree::Int(1), BinOperator::RShift, ParseTree::Int(70))]).unwrap();
    assert_eq!(code.exec(FUEL), Some(Err(ExecError::OverflowShift)));
    assert_eq!(read(vec![]).unwrap().exec(FUEL), Some(Ok(Variable::Void)));
}

#[test]
fn deep_recursion_runs_out_of_fuel() {
    // f = (n: int) -> int { n }; f(f(f(1))) needs no nesting; a call nested in a body does
    let code = read(vec![
        assign("f", ParseTree::Function(Params(vec![Param::new("n", t("int"))]), t("int"), vec![ident("n")])),
        assign("g", ParseTree::Function(Params(vec![Param::new("n", t("int"))]), t("int"), vec![call("f", vec![ident("n")])])),
        call("g", vec![ParseTree::Int(7)]),
    ])
    .unwrap();
    assert_eq!(code.exec(FUEL), Some(Ok(Variable::Int(7))));
    assert_eq!(code.exec(1), None);
}

#[test]
fn refused_scripts() {
    assert!(matches!(read(vec![ident("nope")]), Err(Error::VariableDoesntExist(_))));
    assert!(matches!(
        read(vec![assign("a", ParseTree::Int(1)), call("a", vec![])]),
        Err(Error::NotAFunction(_))
    ));
    assert!(matches!(
        read(vec![infix(ParseTree::Int(1), BinOperator::Add, text("a"))]),
        Err(Error::CannotDo2(..))
    ));
    assert!(matches!(
        read(vec![ParseTree::Function(Params(vec![]), t("int"), vec![text("a")])]),
        Err(Error::WrongReturn { .. })
    ));
    assert!(matches!(
        read(vec![
            assign("f", ParseTree::Function(Params(vec![Param::new("n", t("int"))]), t("int"), vec![ident("n")])),
            call("f", vec![text("x")]),
        ]),
        Err(Error::WrongType(name, Type::Int)) if name == "f"
    ));
    assert!(matches!(
        read(vec![
            assign("f", ParseTree::Function(Params(vec![Param::new("n", t("int"))]), t("int"), vec![ident("n")])),
            call("f", vec![]),
        ]),
        Err(Error::WrongNumberOfArguments(name, 1)) if name == "f"
    ));
    assert!(matches!(read(vec![text("bad\\")]), Err(Error::CannotUnescapeString(_))));
}

#[test]
fn loops_break_and_continue() {
    let code = read(vec![
        ParseTree::Loop(vec![assign("a", ParseTree::Int(1)), ParseTree::Break]),
        ident("a"),
    ])
    .unwrap();
    assert_eq!(code.exec(FUEL), Some(Ok(Variable::Int(1))));
    let endless = read(vec![ParseTree::Loop(vec![ParseTree::Continue])]).unwrap();
    assert_eq!(endless.exec(FUEL), None);
    assert!(matches!(read(vec![ParseTree::Break]), Err(Error::BreakOutsideLoop)));
    assert!(matches!(read(vec![ParseTree::Continue]), Err(Error::ContinueOutsideLoop)));
    // a function body is outside the loop around it
    assert!(matches!(
        read(vec![ParseTree::Loop(vec![ParseTree::Function(
            Params(vec![]),
            t("()"),
            vec![ParseTree::Break]
        )])]),
        Err(Error::BreakOutsideLoop)
    ));
}

#[test]
fn every_accepted_operator_runs() {
    let run = |l: i64, op: BinOperator, r: i64| {
        read(vec![infix(ParseTree::Int(l), op, ParseTree::Int(r))]).unwrap().exec(FUEL)
    };
    assert_eq!(run(2, BinOperator::Pow, 3), Some(Ok(Variable::Int(8))));
    assert_eq!(run(7, BinOperator::Subtract, 10), Some(Ok(Variable::Int(-3))));
    assert_eq!(run(6, BinOperator::Multiply, 7), Some(Ok(Variable::Int(42))));
    assert_eq!(run(7, BinOperator::Divide, 2), Some(Ok(Variable::Int(3))));
    assert_eq!(run(7, BinOperator::Modulo, 3), Some(Ok(Variable::Int(1))));
    assert_eq!(run(6, BinOperator::BitwiseAnd, 3), Some(Ok(Variable::Int(2))));
    assert_eq!(run(1, BinOperator::LShift, 4), Some(Ok(Variable::Int(16))));
    assert_eq!(run(1, BinOperator::Lower, 2), Some(Ok(Variable::Bool(true))));
    assert_eq!(run(2, BinOperator::LowerOrEqual, 2), Some(Ok(Variable::Bool(true))));
    assert_eq!(run(3, BinOperator::Greater, 4), Some(Ok(Variable::Bool(false))));
    assert_eq!(run(4, BinOperator::GreaterOrEqual, 5), Some(Ok(Variable::Bool(false))));
    assert_eq!(run(1, BinOperator::Divide, 0), Some(Err(ExecError::ZeroDivision)));
    assert_eq!(run(1, BinOperator::Modulo, 0), Some(Err(ExecError::ZeroModulo)));
    assert_eq!(run(2, BinOperator::Pow, -1), Some(Err(ExecError::NegativeExponent)));
    assert_eq!(run(1, BinOperator::LShift, 64), Some(Err(ExecError::OverflowShift)));
    assert_eq!(run(i64::MAX, BinOperator::Multiply, 2), None);
    assert_eq!(run(-1, BinOperator::Pow, 1_000_000_000_001), Some(Ok(Variable::Int(-1))));
}

#[test]
fn operators_that_cannot_run_are_refused() {
    assert!(matches!(
        read(vec![assign("a", ParseTree::Int(1)), infix(ident("a"), BinOperator::AssignAdd, ParseTree::Int(1))]),
        Err(Error::CannotDo2(Type::Int, BinOperator::AssignAdd, Type::Int))
    ));
    assert!(matches!(
        read(vec![infix(ParseTree::Array(vec![ParseTree::Int(1)]), BinOperator::Lower, ParseTree::Int(2))]),
        Err(Error::CannotDo2(_, BinOperator::Lower, Type::Int))
    ));
}

#[test]
fn recreate_folds_known_values() {
    let state = Interpreter::new();
    let mut bound: Vec<String> = Vec::new();
    let array = Instruction::Array(vec![
        Instruction::Variable(Variable::Int(1)),
        Instruction::Variable(Variable::Int(2)),
    ]);
    assert_eq!(
        array.recreate(&mut bound, &state),
        Instruction::Variable(Variable::Array(vec![Variable::Int(1), Variable::Int(2)]))
    );
    let code = read(vec![infix(ParseTree::Int(2), BinOperator::Pow, ParseTree::Int(3))]).unwrap();
    assert_eq!(
        code.instructions[0].recreate(&mut bound, &state),
        Instruction::Variable(Variable::Int(8))
    );
    let zero = read(vec![infix(ParseTree::Int(1), BinOperator::Divide, ParseTree::Int(0))]).unwrap();
    let kept = zero.instructions[0].recreate(&mut bound, &state);
    assert!(matches!(kept, Instruction::BinOperation(_)));
}

#[test]
fn statements_keep_their_text() {
    let mut out: Vec<InstructionWithStr> = Vec::new();
    let mut locals = LocalVariables::new();
    assert!(matches!(
        InstructionWithStr::create(&ParseTree::Break, &mut locals, &mut out),
        Err(Error::BreakOutsideLoop)
    ));
    assert!(matches!(
        InstructionWithStr::create(&ParseTree::Continue, &mut locals, &mut out),
        Err(Error::ContinueOutsideLoop)
    ));
    assert!(out.is_empty());
    locals.in_loop = true;
    assert!(InstructionWithStr::create(&ParseTree::Break, &mut locals, &mut out).is_ok());
    assert!(InstructionWithStr::create(&ParseTree::Continue, &mut locals, &mut out).is_ok());
    assert_eq!(out[0].instruction, Instruction::Break);
    assert_eq!(out[0].str, "break");
    assert_eq!(out[1].instruction, Instruction::Continue);
    assert_eq!(out[1].str, "continue");
    let sum = infix(ParseTree::Int(1), BinOperator::Add, infix(ParseTree::Int(2), BinOperator::Multiply, ParseTree::Int(-3)));
    assert!(InstructionWithStr::create(&sum, &mut locals, &mut out).is_ok());
    assert_eq!(out[2].str, "1 + 2 * -3");
    let bad = infix(ParseTree::Int(1), BinOperator::Add, text("a"));
    assert!(matches!(
        InstructionWithStr::create(&bad, &mut locals, &mut out),
        Err(Error::CannotDo2(Type::Int, BinOperator::Add, Type::String))
    ));
    assert_eq!(out.len(), 3);
    let array = ParseTree::Array(vec![ParseTree::Int(1), text("a")]);
    assert!(InstructionWithStr::create(&array, &mut locals, &mut out).is_ok());
    assert_eq!(out[3].str, "[1, \"a\"]");
}

#[test]
fn float_arithmetic_and_other_unrunnable_forms_are_refused() {
    let one = ParseTree::Float(1.0f64.to_bits());
    let two = ParseTree::Float(2.0f64.to_bits());
    assert!(matches!(
        read(vec![infix(one, BinOperator::Add, two)]),
        Err(Error::CannotDo2(Type::Float, BinOperator::Add, Type::Float))
    ));
    assert!(matches!(
        read(vec![infix(ParseTree::Array(vec![ParseTree::Int(1)]), BinOperator::At, text("a"))]),
        Err(Error::CannotDo2(_, BinOperator::At, Type::String))
    ));
    let xor = read(vec![infix(ParseTree::Array(vec![ParseTree::Int(1), ParseTree::Int(2)]), BinOperator::Xor, ParseTree::Int(1))]).unwrap();
    assert_eq!(xor.exec(FUEL), Some(Ok(Variable::Array(vec![Variable::Int(0), Variable::Int(3)]))));
}
