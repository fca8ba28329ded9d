use sk::error::err;
use sk::lexer::{Token, TokenSpan};
use sk::libs::get_library_registry;
use sk::libs::math::{isqrt, sqrt};
use sk::value::Value;

fn site() -> TokenSpan {
    TokenSpan { token: Token::LParen, line: 4, column: 9 }
}

fn shown(args: Vec<Value>) -> String {
    match sqrt(&args, site()) {
        Ok(v) => v.to_display(),
        Err(e) => e.message,
    }
}

#[test]
fn sqrt_of_numbers_and_intervals() {
    assert_eq!(shown(vec![Value::Number(81)]), "9");
    assert_eq!(shown(vec![Value::Number(0)]), "0");
    assert_eq!(shown(vec![Value::Number(2)]), "sqrt() has no whole result for this number");
    assert_eq!(shown(vec![Value::Number(-4)]), "Cannot take sqrt of a negative number");
    assert_eq!(shown(vec![Value::Interval(4, 9)]), "[2..3]");
    assert_eq!(shown(vec![Value::Interval(-1, 9)]), "Cannot take sqrt of negative interval");
    assert_eq!(shown(vec![]), "sqrt() expects 1 number or interval");
    assert_eq!(shown(vec![Value::Unknown]), "sqrt() expects 1 number or interval");
}

#[test]
fn whole_square_roots() {
    assert_eq!(isqrt(0), 0);
    assert_eq!(isqrt(15), 3);
    assert_eq!(isqrt(16), 4);
    assert_eq!(isqrt(i64::MAX), 3037000499);
}

#[test]
fn registry_names_the_math_library() {
    let registry = get_library_registry();
    assert_eq!(registry.len(), 1);
    assert_eq!(registry[0].0, "math");
}

#[test]
fn errors_render_with_their_line() {
    let e = err(site(), "boom".to_string());
    assert_eq!(e.to_display(), "(line 4): boom");
}

#[test]
fn sqrt_failure_carries_the_call_site() {
    let e = sqrt(&vec![Value::Interval(-1, 4)], site()).err().unwrap();
    assert_eq!(e.message, "Cannot take sqrt of negative interval");
    assert_eq!(e.token.line, 4);
    assert_eq!(e.token.column, 9);
}
