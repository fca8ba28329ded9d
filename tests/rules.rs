use sk::binary::{apply_binary, BinaryError};
use sk::lexer::Token;
use sk::value::{SKBool, Value};

fn apply(l: Value, op: Token, r: Value) -> Result<Value, BinaryError> {
    apply_binary(l, &op, r)
}

fn shown(r: Result<Value, BinaryError>) -> String {
    match r {
        Ok(v) => v.to_display(),
        Err(e) => format!("error {:?}", e),
    }
}

#[test]
fn self_subtraction_gives_zero_for_known_values() {
    assert_eq!(shown(apply(Value::Number(5), Token::Minus, Value::Number(5))), "0");
    assert_eq!(shown(apply(Value::Interval(1, 3), Token::Minus, Value::Interval(1, 3))), "0");
    assert_eq!(shown(apply(Value::Bool(SKBool::Partial), Token::Minus, Value::Bool(SKBool::Partial))), "0");
    assert_eq!(shown(apply(Value::String("a".to_string()), Token::Minus, Value::String("a".to_string()))), "0");
    assert_eq!(shown(apply(Value::Nil, Token::Minus, Value::Nil)), "0");
}

#[test]
fn unknown_minus_unknown_stays_unknown() {
    assert_eq!(shown(apply(Value::Unknown, Token::Minus, Value::Unknown)), "unknown");
}

#[test]
fn interval_minus_other_interval_is_not_zero() {
    assert_eq!(shown(apply(Value::Interval(1, 3), Token::Minus, Value::Interval(1, 2))), "[-1..2]");
}

#[test]
fn zero_absorbs_products_on_either_side() {
    assert_eq!(shown(apply(Value::Number(0), Token::Star, Value::Unknown)), "0");
    assert_eq!(shown(apply(Value::Unknown, Token::Star, Value::Number(0))), "0");
    assert_eq!(shown(apply(Value::Number(0), Token::Star, Value::Interval(-4, 9))), "0");
    assert_eq!(shown(apply(Value::Interval(-4, 9), Token::Star, Value::Number(0))), "0");
    assert_eq!(shown(apply(Value::String("s".to_string()), Token::Star, Value::Number(0))), "0");
}

#[test]
fn self_division_rules() {
    assert_eq!(shown(apply(Value::Number(7), Token::Slash, Value::Number(7))), "1");
    assert_eq!(shown(apply(Value::Number(0), Token::Slash, Value::Number(0))), "unknown");
    assert_eq!(shown(apply(Value::Interval(1, 4), Token::Slash, Value::Interval(1, 4))), "1");
    assert_eq!(shown(apply(Value::Interval(-4, -1), Token::Slash, Value::Interval(-4, -1))), "1");
    assert_eq!(shown(apply(Value::Interval(0, 4), Token::Slash, Value::Interval(0, 4))), "unknown");
    assert_eq!(shown(apply(Value::Interval(-2, 3), Token::Slash, Value::Interval(-2, 3))), "unknown");
    assert_eq!(shown(apply(Value::Unknown, Token::Slash, Value::Unknown)), "unknown");
}

#[test]
fn interval_product_commutes() {
    let a = shown(apply(Value::Interval(1, 5), Token::Star, Value::Interval(-2, 3)));
    let b = shown(apply(Value::Interval(-2, 3), Token::Star, Value::Interval(1, 5)));
    assert_eq!(a, "[-10..15]");
    assert_eq!(a, b);
}

#[test]
fn interval_sum_is_boundwise() {
    assert_eq!(shown(apply(Value::Interval(1, 5), Token::Plus, Value::Interval(-2, 3))), "[-1..8]");
}

#[test]
fn interval_sum_associates() {
    let ab = apply(Value::Interval(1, 5), Token::Plus, Value::Interval(-2, 3)).unwrap();
    let left = shown(apply(ab, Token::Plus, Value::Interval(10, 20)));
    let bc = apply(Value::Interval(-2, 3), Token::Plus, Value::Interval(10, 20)).unwrap();
    let right = shown(apply(Value::Interval(1, 5), Token::Plus, bc));
    assert_eq!(left, "[9..28]");
    assert_eq!(left, right);
}

#[test]
fn unknown_propagates() {
    assert_eq!(shown(apply(Value::Unknown, Token::Plus, Value::Number(3))), "unknown");
    assert_eq!(shown(apply(Value::Number(3), Token::Slash, Value::Unknown)), "unknown");
}

#[test]
fn number_arithmetic() {
    assert_eq!(shown(apply(Value::Number(2), Token::Plus, Value::Number(3))), "5");
    assert_eq!(shown(apply(Value::Number(2), Token::Minus, Value::Number(3))), "-1");
    assert_eq!(shown(apply(Value::Number(-4), Token::Star, Value::Number(3))), "-12");
    assert_eq!(shown(apply(Value::Number(6), Token::Slash, Value::Number(-3))), "-2");
    assert_eq!(shown(apply(Value::Number(-9), Token::Slash, Value::Number(-3))), "3");
}

#[test]
fn division_errors() {
    assert_eq!(shown(apply(Value::Number(5), Token::Slash, Value::Number(0))), "error DivisionByZero");
    assert_eq!(shown(apply(Value::Number(7), Token::Slash, Value::Number(2))), "error InexactDivision");
}

#[test]
fn overflow_is_reported() {
    assert_eq!(shown(apply(Value::Number(i64::MAX), Token::Plus, Value::Number(1))), "error OutOfRange");
    assert_eq!(shown(apply(Value::Number(i64::MIN), Token::Slash, Value::Number(-1))), "error OutOfRange");
    assert_eq!(shown(apply(Value::Interval(0, i64::MAX), Token::Star, Value::Number(2))), "error OutOfRange");
}

#[test]
fn comparisons_of_numbers() {
    assert_eq!(shown(apply(Value::Number(3), Token::Greater, Value::Number(2))), "true");
    assert_eq!(shown(apply(Value::Number(3), Token::Less, Value::Number(2))), "false");
    assert_eq!(shown(apply(Value::Number(2), Token::Equal, Value::Number(2))), "true");
    assert_eq!(shown(apply(Value::Interval(1, 2), Token::Greater, Value::Number(2))), "error Unsupported");
}

#[test]
fn interval_and_number_mix() {
    assert_eq!(shown(apply(Value::Interval(1, 4), Token::Plus, Value::Number(2))), "[3..6]");
    assert_eq!(shown(apply(Value::Number(2), Token::Plus, Value::Interval(1, 4))), "[3..6]");
    assert_eq!(shown(apply(Value::Interval(1, 4), Token::Minus, Value::Number(2))), "[-1..2]");
    assert_eq!(shown(apply(Value::Number(10), Token::Minus, Value::Interval(1, 4))), "[6..9]");
    assert_eq!(shown(apply(Value::Interval(1, 4), Token::Star, Value::Number(-2))), "[-8..-2]");
    assert_eq!(shown(apply(Value::Number(3), Token::Star, Value::Interval(-1, 2))), "[-3..6]");
    assert_eq!(shown(apply(Value::Interval(1, 4), Token::Minus, Value::Interval(0, 2))), "[-1..4]");
    assert_eq!(shown(apply(Value::Interval(1, 4), Token::Slash, Value::Number(2))), "error Unsupported");
}

#[test]
fn strings_concatenate() {
    let r = apply(Value::String("ab".to_string()), Token::Plus, Value::String("cd".to_string()));
    assert_eq!(shown(r), "abcd");
    assert_eq!(shown(apply(Value::String("ab".to_string()), Token::Plus, Value::Number(1))), "error Unsupported");
}

#[test]
fn display_forms() {
    assert_eq!(Value::Number(i64::MIN).to_display(), "-9223372036854775808");
    assert_eq!(Value::Number(1200).to_display(), "1200");
    assert_eq!(Value::Bool(SKBool::True).to_display(), "true");
    assert_eq!(Value::Bool(SKBool::False).to_display(), "false");
    assert_eq!(Value::Bool(SKBool::Partial).to_display(), "partial");
    assert_eq!(Value::Unknown.to_display(), "unknown");
    assert_eq!(Value::Nil.to_display(), "none");
    assert_eq!(Value::Interval(-3, 7).to_display(), "[-3..7]");
}

#[test]
fn kind_names() {
    assert_eq!(Value::Number(1).kind_name(), "number");
    assert_eq!(Value::String("x".to_string()).kind_name(), "string");
    assert_eq!(Value::Bool(SKBool::True).kind_name(), "bool");
    assert_eq!(Value::Interval(1, 2).kind_name(), "interval");
    assert_eq!(Value::Unknown.kind_name(), "unknown");
    assert_eq!(Value::Nil.kind_name(), "none");
}
