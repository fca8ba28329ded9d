use sk::ast::{Expr, Stmt};
use sk::binary::BinaryError;
use sk::eval::EvalError;
use sk::env::Environment;
use sk::eval::Evaluator;
use sk::lexer::{tokenize, Token};
use sk::parser::Parser;
use sk::value::Value;
use sk::SKInterpreter;

fn num(n: i64) -> Expr {
    Expr::Literal { value: Token::Number(n) }
}

fn var(name: &str) -> Expr {
    Expr::Variable { name: Token::Identifier(name.to_string()) }
}

fn bin(l: Expr, op: Token, r: Expr) -> Expr {
    Expr::Binary { left: Box::new(l), operator: op, right: Box::new(r) }
}

fn interval(lo: Expr, hi: Expr) -> Expr {
    Expr::Interval { min: Box::new(lo), max: Box::new(hi) }
}

fn call(callee: Token, arguments: Vec<Expr>) -> Expr {
    Expr::Call { callee: Box::new(Expr::Variable { name: callee }), arguments, line: 3, column: 7 }
}

fn let_(name: &str, e: Expr) -> Stmt {
    Stmt::Let { name: Token::Identifier(name.to_string()), initializer: e }
}

fn print(e: Expr) -> Stmt {
    Stmt::Print { expression: e }
}

fn source_run(
    interpreter: &mut SKInterpreter,
    src: String,
) -> Result<(Result<Value, EvalError>, Vec<String>), String> {
    let mut parser = Parser::new(tokenize(src));
    let program = parser.parse()?;
    Ok(interpreter.execute(&program))
}

fn run(program: Vec<Stmt>) -> (Result<Value, EvalError>, Vec<String>) {
    let mut interpreter = SKInterpreter::new();
    interpreter.execute(&program)
}

#[test]
fn self_subtraction_of_a_variable_prints_zero() {
    let (r, out) = run(vec![let_("x", num(5)), print(bin(var("x"), Token::Minus, var("x")))]);
    assert!(matches!(r, Ok(Value::Nil)));
    assert_eq!(out, vec!["0".to_string()]);
}

#[test]
fn zero_times_unknown_prints_zero() {
    let (r, out) = run(vec![print(bin(num(0), Token::Star, Expr::Literal { value: Token::Unknown }))]);
    assert!(r.is_ok());
    assert_eq!(out, vec!["0".to_string()]);
}

#[test]
fn unknown_variable_minus_itself_prints_unknown() {
    let (r, out) = run(vec![
        let_("y", Expr::Literal { value: Token::Unknown }),
        print(bin(var("y"), Token::Minus, var("y"))),
    ]);
    assert!(r.is_ok());
    assert_eq!(out, vec!["unknown".to_string()]);
}

#[test]
fn interval_product_prints_its_hull() {
    let a = interval(num(1), num(5));
    let b = interval(Expr::Unary { operator: Token::Minus, right: Box::new(num(2)) }, num(3));
    let (r, out) = run(vec![print(bin(a, Token::Star, b))]);
    assert!(r.is_ok());
    assert_eq!(out, vec!["[-10..15]".to_string()]);
}

#[test]
fn division_by_zero_stops_the_program() {
    let (r, out) = run(vec![print(bin(num(5), Token::Slash, num(0))), print(num(1))]);
    match r {
        Err(e) => {
            assert!(matches!(e, EvalError::Binary(BinaryError::DivisionByZero)));
            assert_eq!(e.message(), "Division by zero");
        },
        Ok(_) => panic!("expected a failure"),
    }
    assert!(out.is_empty());
}

#[test]
fn kind_of_a_number() {
    let (r, out) = run(vec![print(call(Token::Kind, vec![num(5)]))]);
    assert!(r.is_ok());
    assert_eq!(out, vec!["number".to_string()]);
}

#[test]
fn kind_checks_its_arity() {
    let (r, _) = run(vec![print(call(Token::Kind, vec![num(5), num(6)]))]);
    let e = r.err().unwrap();
    assert_eq!(e.message(), "kind() expects exactly 1 argument.");
}

#[test]
fn str_gives_the_display_form() {
    let (r, _) = run(vec![Stmt::Expression { expression: call(Token::Identifier("str".to_string()), vec![interval(num(1), num(2))]) }]);
    match r {
        Ok(Value::String(s)) => assert_eq!(s, "[1..2]"),
        _ => panic!("expected a string"),
    }
}

#[test]
fn print_call_prints_each_argument() {
    let (r, out) = run(vec![Stmt::Expression { expression: call(Token::Print, vec![num(1), Expr::Literal { value: Token::True }]) }]);
    assert!(matches!(r, Ok(Value::Nil)));
    assert_eq!(out, vec!["1".to_string(), "true".to_string()]);
}

#[test]
fn undefined_function_fails() {
    let (r, _) = run(vec![Stmt::Expression { expression: call(Token::Identifier("nope".to_string()), vec![]) }]);
    assert_eq!(r.err().unwrap().message(), "Undefined function 'nope'.");
}

#[test]
fn undefined_variable_fails() {
    let (r, _) = run(vec![print(var("ghost"))]);
    assert_eq!(r.err().unwrap().message(), "Use of undefined variable 'ghost'.");
}

#[test]
fn last_statement_value_is_the_result() {
    let (r, out) = run(vec![let_("a", num(2)), Stmt::Expression { expression: bin(var("a"), Token::Plus, num(3)) }]);
    assert!(matches!(r, Ok(Value::Number(5))));
    assert!(out.is_empty());
}

#[test]
fn assign_statement_rebinds_the_name() {
    let (r, out) = run(vec![
        let_("a", num(2)),
        Stmt::Assign { name: Token::Identifier("a".to_string()), value: num(7) },
        print(var("a")),
    ]);
    assert!(r.is_ok());
    assert_eq!(out, vec!["7".to_string()]);
}

#[test]
fn panic_statement_stops_the_program() {
    let (r, out) = run(vec![print(num(1)), Stmt::Panic, print(num(2))]);
    assert!(matches!(r, Err(EvalError::Panicked)));
    assert_eq!(out, vec!["1".to_string()]);
}

#[test]
fn interval_bounds_must_be_numbers() {
    let (r, _) = run(vec![print(interval(num(1), Expr::Literal { value: Token::True }))]);
    assert!(matches!(r, Err(EvalError::BoundsNotNumbers)));
}

#[test]
fn unary_operations() {
    let neg = Expr::Unary { operator: Token::Minus, right: Box::new(num(4)) };
    let not = Expr::Unary { operator: Token::Not, right: Box::new(Expr::Literal { value: Token::False }) };
    let bad = Expr::Unary { operator: Token::Not, right: Box::new(Expr::Literal { value: Token::Partial }) };
    let (r, out) = run(vec![print(neg), print(not)]);
    assert!(r.is_ok());
    assert_eq!(out, vec!["-4".to_string(), "true".to_string()]);
    let (r, _) = run(vec![print(bad)]);
    assert!(matches!(r, Err(EvalError::InvalidUnary)));
}

#[test]
fn unsupported_literal_fails() {
    let (r, _) = run(vec![print(Expr::Literal { value: Token::Plus })]);
    assert!(matches!(r, Err(EvalError::UnsupportedLiteral)));
}

#[test]
fn grouping_returns_inner_value() {
    let (r, _) = run(vec![Stmt::Expression { expression: Expr::Grouping { expression: Box::new(num(3)) } }]);
    assert!(matches!(r, Ok(Value::Number(3))));
}

#[test]
fn math_library_provides_sqrt() {
    let mut interpreter = SKInterpreter::new();
    assert!(interpreter.load_library("math"));
    assert!(!interpreter.load_library("nothing"));
    let sqrt = Token::Identifier("sqrt".to_string());
    let program = vec![
        print(call(sqrt.clone(), vec![num(16)])),
        print(call(sqrt.clone(), vec![interval(num(2), num(10))])),
    ];
    let (r, out) = interpreter.execute(&program);
    assert!(r.is_ok());
    assert_eq!(out, vec!["4".to_string(), "[1..4]".to_string()]);
    let (r, _) = interpreter.execute(&vec![print(call(sqrt, vec![num(15)]))]);
    let e = r.err().unwrap();
    assert_eq!(e.message(), "sqrt() has no whole result for this number");
    match e {
        EvalError::Native(n) => {
            assert_eq!(n.token.line, 3);
            assert_eq!(n.token.column, 7);
        },
        _ => panic!("expected a native failure"),
    }
}

#[test]
fn sessions_keep_bindings_between_programs() {
    let mut interpreter = SKInterpreter::new();
    let (r, _) = interpreter.execute(&vec![let_("k", num(3))]);
    assert!(r.is_ok());
    let (r, out) = interpreter.execute(&vec![print(var("k"))]);
    assert!(r.is_ok());
    assert_eq!(out, vec!["3".to_string()]);
}

#[test]
fn source_text_runs_end_to_end() {
    let mut interpreter = SKInterpreter::new();
    let src = "let x = 5\nprint x - x\nprint 0 * unknown\nlet y = unknown\nprint y - y\nprint [1..5] * [-2..3]\nprint kind(5)\n";
    let (r, out) = source_run(&mut interpreter, src.to_string()).unwrap();
    assert!(r.is_ok());
    assert_eq!(out, vec!["0", "0", "unknown", "[-10..15]", "number"]);
}

#[test]
fn source_division_by_zero_reports() {
    let mut interpreter = SKInterpreter::new();
    let (r, _) = source_run(&mut interpreter, "print 5 / 0".to_string()).unwrap();
    assert_eq!(r.err().unwrap().message(), "Division by zero");
}

#[test]
fn source_precedence_and_calls() {
    let mut interpreter = SKInterpreter::new();
    let (r, out) = source_run(&mut interpreter, "print 2 + 3 * 4 == 14\nprint(1, 2)\nx = 3\nx".to_string()).unwrap();
    assert!(matches!(r, Ok(Value::Number(3))));
    assert_eq!(out, vec!["true", "1", "2"]);
}

#[test]
fn source_parse_error_runs_nothing() {
    let mut interpreter = SKInterpreter::new();
    let r = source_run(&mut interpreter, "let a = (1".to_string());
    assert_eq!(r.err().unwrap(), "Expected ')' after expression");
    let r = source_run(&mut interpreter, "let = 4".to_string());
    assert_eq!(r.err().unwrap(), "Expected variable name after 'let'");
}

#[test]
fn interval_bounds_are_kept_in_given_order() {
    let (r, out) = run(vec![print(interval(num(5), num(1)))]);
    assert!(r.is_ok());
    assert_eq!(out, vec!["[5..1]".to_string()]);
}

#[test]
fn native_failure_from_source_carries_call_site() {
    let mut interpreter = SKInterpreter::new();
    assert!(interpreter.load_library("math"));
    let (r, _) = source_run(&mut interpreter, "let a = 1\nprint sqrt(-4)".to_string()).unwrap();
    match r {
        Err(EvalError::Native(e)) => {
            assert_eq!(e.message, "Cannot take sqrt of a negative number");
            assert_eq!(e.token.line, 2);
            assert_eq!(e.token.column, 11);
            assert_eq!(e.to_display(), "(line 2): Cannot take sqrt of a negative number");
        },
        _ => panic!("expected a native failure"),
    }
}

#[test]
fn assign_statement_shadows_instead_of_mutating_outer_scope() {
    let mut root = Environment::new();
    root.define("x".to_string(), Value::Number(1));
    let mut evaluator = Evaluator::new(Environment::new_enclosed(root));
    let program = vec![
        Stmt::Assign { name: Token::Identifier("x".to_string()), value: num(2) },
        print(var("x")),
    ];
    let r = evaluator.evaluate(&program);
    assert!(r.is_ok());
    let (inner, out) = evaluator.into_parts();
    assert_eq!(out, vec!["2".to_string()]);
    let root = inner.into_enclosing().unwrap();
    match root.get("x") {
        Ok(v) => assert_eq!(v.to_display(), "1"),
        Err(m) => panic!("{}", m),
    }
}

#[test]
fn string_literal_is_not_callable() {
    let e = Expr::Call {
        callee: Box::new(Expr::Variable { name: Token::String("s".to_string()) }),
        arguments: vec![num(1)],
        line: 1,
        column: 1,
    };
    let (r, _) = run(vec![print(e)]);
    assert!(matches!(r, Err(EvalError::NotCallable)));
}

#[test]
fn parse_of_blank_lines_is_empty() {
    let mut parser = Parser::new(tokenize("\n\n".to_string()));
    assert_eq!(parser.parse().unwrap().len(), 0);
}

#[test]
fn parse_rejects_a_leading_closing_paren() {
    let mut parser = Parser::new(tokenize(") 1".to_string()));
    assert_eq!(parser.parse().err().unwrap(), "Expected expression");
}

#[test]
fn duplicated_tree_evaluates_alike() {
    let e = call(Token::Identifier("str".to_string()), vec![bin(num(2), Token::Star, interval(num(1), num(3)))]);
    let copy = e.duplicate();
    let (r1, _) = run(vec![Stmt::Expression { expression: e }]);
    let (r2, _) = run(vec![Stmt::Expression { expression: copy }]);
    assert_eq!(r1.unwrap().to_display(), "[2..6]");
    assert_eq!(r2.unwrap().to_display(), "[2..6]");
}
