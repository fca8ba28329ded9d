use sk::lexer::{tokenize, Lexer, Token};

fn kinds(src: &str) -> Vec<Token> {
    tokenize(src.to_string()).into_iter().map(|t| t.token).collect()
}

#[test]
fn let_statement_tokens() {
    assert_eq!(
        kinds("let x1 = 42"),
        vec![Token::Let, Token::Identifier("x1".to_string()), Token::Assign, Token::Number(42), Token::EOF]
    );
}

#[test]
fn operators_and_delimiters() {
    assert_eq!(
        kinds("[1..5] * -> == != >= <= ! ( )"),
        vec![
            Token::LBracket, Token::Number(1), Token::RangeSep, Token::Number(5), Token::RBracket,
            Token::Star, Token::Arrow, Token::Equal, Token::NotEqual, Token::GreaterEqual,
            Token::LessEqual, Token::Not, Token::LParen, Token::RParen, Token::EOF,
        ]
    );
}

#[test]
fn comments_are_skipped_and_newlines_merge() {
    assert_eq!(kinds("1 // note\n\n\r2"), vec![Token::Number(1), Token::NewLine, Token::Number(2), Token::EOF]);
}

#[test]
fn strings_with_either_quote() {
    assert_eq!(
        kinds("\"hi there\" 'x'"),
        vec![Token::String("hi there".to_string()), Token::String("x".to_string()), Token::EOF]
    );
    assert_eq!(kinds("\"open"), vec![Token::String("open".to_string()), Token::EOF]);
}

#[test]
fn keywords_and_literals() {
    assert_eq!(
        kinds("print kind true false partial unknown none panic"),
        vec![
            Token::Print, Token::Kind, Token::True, Token::False, Token::Partial,
            Token::Unknown, Token::Nil, Token::Panic, Token::EOF,
        ]
    );
}

#[test]
fn number_too_large_is_not_a_number() {
    assert_eq!(kinds("99999999999999999999"), vec![Token::UnknownChar('9'), Token::EOF]);
    assert_eq!(kinds("9223372036854775807"), vec![Token::Number(i64::MAX), Token::EOF]);
}

#[test]
fn unknown_characters() {
    assert_eq!(kinds("@ ."), vec![Token::UnknownChar('@'), Token::UnknownChar('.'), Token::EOF]);
}

#[test]
fn lines_are_counted() {
    let spans = tokenize("a\nb".to_string());
    assert_eq!(spans[0].line, 1);
    assert_eq!(spans[2].line, 2);
    assert_eq!(spans[2].token, Token::Identifier("b".to_string()));
}

#[test]
fn cursor_helpers() {
    let mut lexer = Lexer::new("ab".to_string());
    assert_eq!(lexer.peek(), 'a');
    assert_eq!(lexer.peek_next(), 'b');
    assert!(!lexer.match_char('b'));
    assert!(lexer.match_char('a'));
    assert_eq!(lexer.advance(), 'b');
    assert!(lexer.is_at_end());
    assert_eq!(lexer.peek(), '\0');
    assert_eq!(lexer.peek_next(), '\0');
}

#[test]
fn lines_inside_strings_are_counted() {
    let spans = tokenize("'a\nb' x".to_string());
    assert_eq!(spans[0].token, Token::String("a\nb".to_string()));
    assert_eq!(spans[1].token, Token::Identifier("x".to_string()));
    assert_eq!(spans[1].line, 2);
}

#[test]
fn newline_runs_count_every_line() {
    let spans = tokenize("a\n\r\n\nb".to_string());
    assert_eq!(spans[1].token, Token::NewLine);
    assert_eq!(spans[2].token, Token::Identifier("b".to_string()));
    assert_eq!(spans[2].line, 4);
}

#[test]
fn paired_and_lone_operators() {
    assert_eq!(
        kinds("= - . > < ! /"),
        vec![
            Token::Assign, Token::Minus, Token::UnknownChar('.'), Token::Greater,
            Token::Less, Token::Not, Token::Slash, Token::EOF,
        ]
    );
}
