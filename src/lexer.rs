use vstd::prelude::*;

use crate::text::{push_char, same_text};
use vstd::std_specs::iter::IteratorSpec;

verus! {

/// A token of the source language.
#[derive(Debug, Clone, PartialEq)]
pub enum Token {
    UnknownChar(char),
    Identifier(String),
    Number(i64),
    String(String),
    Let,
    Const,
    Unknown,
    Symbolic,
    Quiet,
    If,
    Elif,
    Else,
    Merge,
    Strict,
    Nil,
    Print,
    Input,
    Panic,
    Fn,
    Return,
    For,
    While,
    Kind,
    True,
    False,
    Partial,
    Assign,
    Arrow,
    Plus,
    Minus,
    Star,
    Slash,
    Caret,
    RangeSep,
    LParen,
    RParen,
    LBracket,
    RBracket,
    LBrace,
    RBrace,
    Quote,
    Greater,
    Less,
    GreaterEqual,
    LessEqual,
    Equal,
    NotEqual,
    Not,
    NewLine,
    EOF,
}

impl Token {
    /// A copy of the token.
    pub fn duplicate(&self) -> (r: Token)
        ensures
            r == *self,
    {
        match self {
            Token::UnknownChar(c) => Token::UnknownChar(*c),
            Token::Identifier(s) => Token::Identifier(s.clone()),
            Token::Number(n) => Token::Number(*n),
            Token::String(s) => Token::String(s.clone()),
            Token::Let => Token::Let,
            Token::Const => Token::Const,
            Token::Unknown => Token::Unknown,
            Token::Symbolic => Token::Symbolic,
            Token::Quiet => Token::Quiet,
            Token::If => Token::If,
            Token::Elif => Token::Elif,
            Token::Else => Token::Else,
            Token::Merge => Token::Merge,
            Token::Strict => Token::Strict,
            Token::Nil => Token::Nil,
            Token::Print => Token::Print,
            Token::Input => Token::Input,
            Token::Panic => Token::Panic,
            Token::Fn => Token::Fn,
            Token::Return => Token::Return,
            Token::For => Token::For,
            Token::While => Token::While,
            Token::Kind => Token::Kind,
            Token::True => Token::True,
            Token::False => Token::False,
            Token::Partial => Token::Partial,
            Token::Assign => Token::Assign,
            Token::Arrow => Token::Arrow,
            Token::Plus => Token::Plus,
            Token::Minus => Token::Minus,
            Token::Star => Token::Star,
            Token::Slash => Token::Slash,
            Token::Caret => Token::Caret,
            Token::RangeSep => Token::RangeSep,
            Token::LParen => Token::LParen,
            Token::RParen => Token::RParen,
            Token::LBracket => Token::LBracket,
            Token::RBracket => Token::RBracket,
            Token::LBrace => Token::LBrace,
            Token::RBrace => Token::RBrace,
            Token::Quote => Token::Quote,
            Token::Greater => Token::Greater,
            Token::Less => Token::Less,
            Token::GreaterEqual => Token::GreaterEqual,
            Token::LessEqual => Token::LessEqual,
            Token::Equal => Token::Equal,
            Token::NotEqual => Token::NotEqual,
            Token::Not => Token::Not,
            Token::NewLine => Token::NewLine,
            Token::EOF => Token::EOF,
        }
    }
}

/// A token with the line and column at which the lexer stood after reading it.
#[derive(Debug, Clone)]
pub struct TokenSpan {
    pub token: Token,
    pub line: usize,
    pub column: usize,
}

pub uninterp spec fn alphabetic_char(c: char) -> bool;

pub uninterp spec fn alphanumeric_char(c: char) -> bool;

/// Relies on `char::is_alphabetic`: whether the character has the Unicode
/// Alphabetic property.
#[verifier::external_body]
fn is_alphabetic(c: char) -> (r: bool)
    ensures
        r == alphabetic_char(c),
{
    c.is_alphabetic()
}

/// Relies on `char::is_alphanumeric`: whether the character is alphabetic or numeric.
#[verifier::external_body]
fn is_alphanumeric(c: char) -> (r: bool)
    ensures
        r == alphanumeric_char(c),
{
    c.is_alphanumeric()
}

/// The characters of a text, in order.
fn chars_of(s: &str) -> (r: Vec<char>)
    ensures
        r@ == s@,
{
    let mut it = s.chars();
    let mut r: Vec<char> = Vec::new();
    loop
        invariant
            r@ + it.remaining() == s@,
            it.decrease() is Some,
        ensures
            r@ == s@,
        decreases it.decrease()->0,
    {
        match it.next() {
            Some(c) => {
                let ghost before = r@;
                r.push(c);
                proof {
                    assert(r@ + it.remaining() =~= before + seq![c] + it.remaining());
                }
            },
            None => {
                proof {
                    assert(r@ + it.remaining() =~= r@);
                    assert(r@ == s@);
                }
                break;
            },
        }
    }
    r
}

pub open spec fn digit_char(c: char) -> bool {
    '0' <= c && c <= '9'
}

pub open spec fn digit_value(c: char) -> int {
    c as int - '0' as int
}

/// The number that a run of decimal digits denotes.
pub open spec fn digits_value(s: Seq<char>) -> int
    decreases s.len(),
{
    if s.len() == 0 {
        0
    } else {
        digits_value(s.drop_last()) * 10 + digit_value(s.last())
    }
}

/// The number of line breaks in a text.
pub open spec fn count_newlines(s: Seq<char>) -> int
    decreases s.len(),
{
    if s.len() == 0 {
        0
    } else {
        count_newlines(s.drop_last()) + if s.last() == '\n' { 1int } else { 0int }
    }
}

/// The token of a character that may pair with the next one, given whether
/// the pair is formed.
pub open spec fn paired_token(c: char, paired: bool) -> Option<Token> {
    if c == '=' { Some(if paired { Token::Equal } else { Token::Assign }) }
    else if c == '-' { Some(if paired { Token::Arrow } else { Token::Minus }) }
    else if c == '.' { Some(if paired { Token::RangeSep } else { Token::UnknownChar('.') }) }
    else if c == '>' { Some(if paired { Token::GreaterEqual } else { Token::Greater }) }
    else if c == '<' { Some(if paired { Token::LessEqual } else { Token::Less }) }
    else if c == '!' { Some(if paired { Token::NotEqual } else { Token::Not }) }
    else { None }
}

/// The second character that forms a pair with `c`.
pub open spec fn pair_second(c: char) -> char {
    if c == '-' { '>' } else if c == '.' { '.' } else { '=' }
}

pub open spec fn ident_char(c: char) -> bool {
    alphanumeric_char(c) || c == '_'
}

/// The keyword token that a word stands for, if any.
pub open spec fn keyword(w: Seq<char>) -> Option<Token> {
    if w == "let"@ { Some(Token::Let) }
    else if w == "const"@ { Some(Token::Const) }
    else if w == "unknown"@ { Some(Token::Unknown) }
    else if w == "symbolic"@ { Some(Token::Symbolic) }
    else if w == "quiet"@ { Some(Token::Quiet) }
    else if w == "if"@ { Some(Token::If) }
    else if w == "elif"@ { Some(Token::Elif) }
    else if w == "else"@ { Some(Token::Else) }
    else if w == "merge"@ { Some(Token::Merge) }
    else if w == "strict"@ { Some(Token::Strict) }
    else if w == "print"@ { Some(Token::Print) }
    else if w == "input"@ { Some(Token::Input) }
    else if w == "panic"@ { Some(Token::Panic) }
    else if w == "fn"@ { Some(Token::Fn) }
    else if w == "return"@ { Some(Token::Return) }
    else if w == "for"@ { Some(Token::For) }
    else if w == "while"@ { Some(Token::While) }
    else if w == "none"@ { Some(Token::Nil) }
    else if w == "true"@ { Some(Token::True) }
    else if w == "false"@ { Some(Token::False) }
    else if w == "partial"@ { Some(Token::Partial) }
    else if w == "kind"@ { Some(Token::Kind) }
    else { None }
}

/// The token for a word: its keyword, or an identifier.
fn word_token(w: String) -> (r: Token)
    ensures
        match keyword(w@) {
            Some(k) => r == k,
            None => r == Token::Identifier(w),
        },
{
    let t = w.as_str();
    if same_text(t, "let") { Token::Let }
    else if same_text(t, "const") { Token::Const }
    else if same_text(t, "unknown") { Token::Unknown }
    else if same_text(t, "symbolic") { Token::Symbolic }
    else if same_text(t, "quiet") { Token::Quiet }
    else if same_text(t, "if") { Token::If }
    else if same_text(t, "elif") { Token::Elif }
    else if same_text(t, "else") { Token::Else }
    else if same_text(t, "merge") { Token::Merge }
    else if same_text(t, "strict") { Token::Strict }
    else if same_text(t, "print") { Token::Print }
    else if same_text(t, "input") { Token::Input }
    else if same_text(t, "panic") { Token::Panic }
    else if same_text(t, "fn") { Token::Fn }
    else if same_text(t, "return") { Token::Return }
    else if same_text(t, "for") { Token::For }
    else if same_text(t, "while") { Token::While }
    else if same_text(t, "none") { Token::Nil }
    else if same_text(t, "true") { Token::True }
    else if same_text(t, "false") { Token::False }
    else if same_text(t, "partial") { Token::Partial }
    else if same_text(t, "kind") { Token::Kind }
    else { Token::Identifier(w) }
}

/// Reads source text into tokens.
pub struct Lexer {
    pub source: Vec<char>,
    pub cursor: usize,
    pub line: usize,
    pub column: usize,
}

impl Lexer {
    /// The cursor stays within the source, and the counters cannot overflow.
    pub open spec fn wf(&self) -> bool {
        &&& self.source.len() < usize::MAX
        &&& self.cursor <= self.source.len()
        &&& 1 <= self.line <= self.cursor + 1
        &&& 1 <= self.column <= self.cursor + 1
    }

    /// A lexer at the start of `input`.
    pub fn new(input: String) -> (r: Self)
        requires
            input@.len() < usize::MAX,
        ensures
            r.wf(),
            r.source@ == input@,
            r.cursor == 0,
            r.line == 1,
            r.column == 1,
    {
        Lexer { source: chars_of(input.as_str()), cursor: 0, line: 1, column: 1 }
    }

    pub fn is_at_end(&self) -> (r: bool)
        ensures
            r == (self.cursor >= self.source.len()),
    {
        self.cursor >= self.source.len()
    }

    /// The character under the cursor, or '\0' at the end.
    pub fn peek(&self) -> (r: char)
        ensures
            r == if self.cursor < self.source.len() { self.source@[self.cursor as int] } else { '\0' },
    {
        if self.is_at_end() { '\0' } else { self.source[self.cursor] }
    }

    /// The character after the cursor, or '\0' past the end.
    pub fn peek_next(&self) -> (r: char)
        ensures
            r == if self.cursor + 1 < self.source.len() { self.source@[self.cursor + 1] } else { '\0' },
    {
        if self.cursor >= self.source.len() || self.cursor + 1 >= self.source.len() {
            '\0'
        } else {
            self.source[self.cursor + 1]
        }
    }

    /// Consumes the character under the cursor.
    pub fn advance(&mut self) -> (c: char)
        requires
            old(self).wf(),
            old(self).cursor < old(self).source.len(),
        ensures
            final(self).wf(),
            c == old(self).source@[old(self).cursor as int],
            final(self).source == old(self).source,
            final(self).cursor == old(self).cursor + 1,
            final(self).column == old(self).column + 1,
            final(self).line == old(self).line,
    {
        let c = self.source[self.cursor];
        self.cursor += 1;
        self.column += 1;
        c
    }

    /// Consumes the character under the cursor when it is `expected`.
    pub fn match_char(&mut self, expected: char) -> (r: bool)
        requires
            old(self).wf(),
        ensures
            final(self).wf(),
            r == (old(self).cursor < old(self).source.len() && old(self).source@[old(self).cursor as int] == expected),
            final(self).source == old(self).source,
            final(self).line == old(self).line,
            r ==> final(self).cursor == old(self).cursor + 1 && final(self).column == old(self).column + 1,
            !r ==> final(self).cursor == old(self).cursor && final(self).column == old(self).column,
    {
        if self.is_at_end() || self.source[self.cursor] != expected {
            return false;
        }
        self.cursor += 1;
        self.column += 1;
        true
    }

    /// Reads a whole number whose first digit was just consumed: the digits
    /// that follow are consumed too. A number too large for the number type
    /// gives an unknown-character token for its first digit.
    pub fn number(&mut self) -> (r: Token)
        requires
            old(self).wf(),
            old(self).cursor >= 1,
            digit_char(old(self).source@[old(self).cursor - 1]),
        ensures
            final(self).wf(),
            final(self).source == old(self).source,
            final(self).line == old(self).line,
            old(self).cursor <= final(self).cursor,
            forall|i: int| old(self).cursor - 1 <= i < final(self).cursor ==> digit_char(#[trigger] final(self).source@[i]),
            final(self).cursor == final(self).source.len() || !digit_char(final(self).source@[final(self).cursor as int]),
            ({
                let v = digits_value(final(self).source@.subrange(old(self).cursor - 1, final(self).cursor as int));
                if v <= i64::MAX {
                    r == Token::Number(v as i64)
                } else {
                    r == Token::UnknownChar(old(self).source@[old(self).cursor - 1])
                }
            }),
    {
        let start = self.cursor - 1;
        let first = self.source[start];
        let ghost src = self.source@;
        let mut value: i64 = (first as u32 - '0' as u32) as i64;
        let mut overflow = false;
        proof {
            let s1 = src.subrange(start as int, start + 1);
            assert(s1.drop_last() =~= Seq::<char>::empty());
            assert(s1.last() == first);
            assert(digits_value(s1) == digits_value(s1.drop_last()) * 10 + digit_value(first));
            assert(digits_value(Seq::<char>::empty()) == 0);
        }
        while self.cursor < self.source.len() && '0' <= self.source[self.cursor] && self.source[self.cursor] <= '9'
            invariant
                self.wf(),
                self.source == old(self).source,
                self.source@ == src,
                self.line == old(self).line,
                start + 1 <= self.cursor,
                start == old(self).cursor - 1,
                forall|i: int| start <= i < self.cursor ==> digit_char(#[trigger] src[i]),
                !overflow ==> value == digits_value(src.subrange(start as int, self.cursor as int)),
                overflow ==> digits_value(src.subrange(start as int, self.cursor as int)) > i64::MAX,
                0 <= value,
            decreases self.source.len() - self.cursor,
        {
            let ghost before = self.cursor;
            let c = self.advance();
            let d = (c as u32 - '0' as u32) as i64;
            proof {
                let s = src.subrange(start as int, self.cursor as int);
                assert(s.drop_last() =~= src.subrange(start as int, before as int));
                assert(s.last() == c);
                lemma_digits_value_nonneg(src.subrange(start as int, before as int));
            }
            if !overflow {
                if value > (i64::MAX - d) / 10 {
                    overflow = true;
                } else {
                    value = value * 10 + d;
                }
            }
        }
        if overflow {
            Token::UnknownChar(first)
        } else {
            Token::Number(value)
        }
    }

    /// Reads a word whose first character was just consumed: the identifier
    /// characters that follow are consumed too; a keyword gives its token.
    pub fn identifier(&mut self) -> (r: Token)
        requires
            old(self).wf(),
            old(self).cursor >= 1,
        ensures
            final(self).wf(),
            final(self).source == old(self).source,
            final(self).line == old(self).line,
            old(self).cursor <= final(self).cursor,
            forall|i: int| old(self).cursor <= i < final(self).cursor ==> ident_char(#[trigger] final(self).source@[i]),
            final(self).cursor == final(self).source.len() || !ident_char(final(self).source@[final(self).cursor as int]),
            ({
                let w = final(self).source@.subrange(old(self).cursor - 1, final(self).cursor as int);
                match keyword(w) {
                    Some(k) => r == k,
                    None => r is Identifier && r->Identifier_0@ == w,
                }
            }),
    {
        let start = self.cursor - 1;
        let mut text = String::new();
        push_char(&mut text, self.source[start]);
        proof {
            assert(text@ =~= self.source@.subrange(start as int, self.cursor as int));
        }
        while !self.is_at_end() && (is_alphanumeric(self.peek()) || self.peek() == '_')
            invariant
                self.wf(),
                self.source == old(self).source,
                self.line == old(self).line,
                start + 1 <= self.cursor,
                start == old(self).cursor - 1,
                forall|i: int| old(self).cursor <= i < self.cursor ==> ident_char(#[trigger] self.source@[i]),
                text@ == self.source@.subrange(start as int, self.cursor as int),
            decreases self.source.len() - self.cursor,
        {
            let c = self.advance();
            push_char(&mut text, c);
            proof {
                assert(text@ =~= self.source@.subrange(start as int, self.cursor as int));
            }
        }
        word_token(text)
    }

    /// Reads text up to the closing `quote`, whose opening was just consumed.
    /// An unterminated string runs to the end of the source.
    pub fn string(&mut self, quote: char) -> (r: Token)
        requires
            old(self).wf(),
        ensures
            final(self).wf(),
            final(self).source == old(self).source,
            old(self).cursor <= final(self).cursor,
            r is String,
            final(self).line == old(self).line + count_newlines(r->String_0@),
            ({
                let t = r->String_0@;
                let end = old(self).cursor + t.len();
                &&& end <= final(self).source.len()
                &&& t == final(self).source@.subrange(old(self).cursor as int, end)
                &&& forall|i: int| 0 <= i < t.len() ==> #[trigger] t[i] != quote
                &&& (end == final(self).source.len() && final(self).cursor == end
                    || final(self).source@[end] == quote && final(self).cursor == end + 1)
            }),
    {
        let start = self.cursor;
        let mut text = String::new();
        proof {
            assert(text@ =~= self.source@.subrange(start as int, self.cursor as int));
        }
        while self.peek() != quote && !self.is_at_end()
            invariant
                self.wf(),
                self.source == old(self).source,
                start == old(self).cursor,
                start <= self.cursor,
                text@ == self.source@.subrange(start as int, self.cursor as int),
                self.line == old(self).line + count_newlines(text@),
                forall|i: int| 0 <= i < text@.len() ==> #[trigger] text@[i] != quote,
            decreases self.source.len() - self.cursor,
        {
            let ghost before = text@;
            let c = self.advance();
            if c == '\n' {
                self.line += 1;
                self.column = 2;
            }
            push_char(&mut text, c);
            proof {
                assert(text@.drop_last() =~= before);
                assert(text@ =~= self.source@.subrange(start as int, self.cursor as int));
            }
        }
        if self.is_at_end() {
            return Token::String(text);
        }
        self.advance();
        Token::String(text)
    }

    /// Reads the next token from the character under the cursor; whitespace
    /// and comments give none.
    pub fn next_token(&mut self) -> (r: Option<Token>)
        requires
            old(self).wf(),
            old(self).cursor < old(self).source.len(),
        ensures
            final(self).wf(),
            final(self).source == old(self).source,
            old(self).cursor < final(self).cursor,
            single_token(old(self).source@[old(self).cursor as int]) is Some
                ==> r == single_token(old(self).source@[old(self).cursor as int]),
            r != Some(Token::EOF),
            ({
                let src = old(self).source@;
                let oc = old(self).cursor as int;
                let fc = final(self).cursor as int;
                let c = src[oc];
                let paired = oc + 1 < src.len() && src[oc + 1] == pair_second(c);
                &&& paired_token(c, paired) is Some ==> r == paired_token(c, paired)
                    && fc == oc + if paired { 2int } else { 1int }
                &&& (c == '/' && !(oc + 1 < src.len() && src[oc + 1] == '/'))
                    ==> r == Some(Token::Slash) && fc == oc + 1
                &&& (c == '/' && oc + 1 < src.len() && src[oc + 1] == '/') ==> {
                    &&& r is None
                    &&& oc + 2 <= fc
                    &&& (fc == src.len() || src[fc] == '\n')
                    &&& forall|i: int| oc + 2 <= i < fc ==> #[trigger] src[i] != '\n'
                }
                &&& c == '\n' ==> {
                    &&& forall|i: int| oc < i < fc ==> (#[trigger] src[i] == '\n' || src[i] == '\r')
                    &&& (fc == src.len() || src[fc] != '\n' && src[fc] != '\r')
                    &&& final(self).line == old(self).line + 1 + count_newlines(src.subrange(oc + 1, fc))
                    &&& (src[fc - 1] == '\n' ==> final(self).column == 1)
                }
            }),
            ({
                let c = old(self).source@[old(self).cursor as int];
                &&& (c == ' ' || c == '\r' || c == '\t') ==> r is None && final(self).cursor == old(self).cursor + 1
                &&& c == '\n' ==> r == Some(Token::NewLine)
                &&& (c == '"' || c == '\'') ==> r is Some && r->0 is String
                &&& digit_char(c) ==> r is Some && (r->0 is Number || r->0 == Token::UnknownChar(c))
            }),
    {
        let c = self.advance();
        match c {
            '(' => Some(Token::LParen),
            ')' => Some(Token::RParen),
            '[' => Some(Token::LBracket),
            ']' => Some(Token::RBracket),
            '{' => Some(Token::LBrace),
            '}' => Some(Token::RBrace),
            '+' => Some(Token::Plus),
            '*' => Some(Token::Star),
            '^' => Some(Token::Caret),
            '/' => {
                if self.match_char('/') {
                    while self.peek() != '\n' && !self.is_at_end()
                        invariant
                            self.wf(),
                            self.source == old(self).source,
                            old(self).cursor + 2 <= self.cursor,
                            forall|i: int| old(self).cursor + 2 <= i < self.cursor
                                ==> #[trigger] self.source@[i] != '\n',
                        decreases self.source.len() - self.cursor,
                    {
                        self.advance();
                    }
                    None
                } else {
                    Some(Token::Slash)
                }
            },
            '\n' => {
                self.line += 1;
                self.column = 1;
                proof {
                    assert(self.source@.subrange(old(self).cursor + 1, self.cursor as int) =~= Seq::<char>::empty());
                }
                while self.peek() == '\n' || self.peek() == '\r'
                    invariant
                        self.wf(),
                        self.source == old(self).source,
                        old(self).cursor < self.cursor,
                        self.source@[old(self).cursor as int] == '\n',
                        forall|i: int| old(self).cursor < i < self.cursor
                            ==> (#[trigger] self.source@[i] == '\n' || self.source@[i] == '\r'),
                        self.line == old(self).line + 1
                            + count_newlines(self.source@.subrange(old(self).cursor + 1, self.cursor as int)),
                        self.source@[self.cursor - 1] == '\n' ==> self.column == 1,
                    decreases self.source.len() - self.cursor,
                {
                    let ghost prev = self.cursor;
                    let next_c = self.advance();
                    if next_c == '\n' {
                        self.line += 1;
                        self.column = 1;
                    }
                    proof {
                        let s = self.source@.subrange(old(self).cursor + 1, self.cursor as int);
                        assert(s.drop_last() =~= self.source@.subrange(old(self).cursor + 1, prev as int));
                    }
                }
                Some(Token::NewLine)
            },
            '=' => if self.match_char('=') { Some(Token::Equal) } else { Some(Token::Assign) },
            '-' => if self.match_char('>') { Some(Token::Arrow) } else { Some(Token::Minus) },
            '.' => if self.match_char('.') { Some(Token::RangeSep) } else { Some(Token::UnknownChar('.')) },
            '>' => if self.match_char('=') { Some(Token::GreaterEqual) } else { Some(Token::Greater) },
            '<' => if self.match_char('=') { Some(Token::LessEqual) } else { Some(Token::Less) },
            '!' => if self.match_char('=') { Some(Token::NotEqual) } else { Some(Token::Not) },
            ' ' | '\r' | '\t' => None,
            '"' | '\'' => Some(self.string(c)),
            _ => {
                if '0' <= c && c <= '9' {
                    Some(self.number())
                } else if is_alphabetic(c) || c == '_' {
                    Some(self.identifier())
                } else {
                    Some(Token::UnknownChar(c))
                }
            },
        }
    }

    /// Reads the whole source; the last token is the end-of-file marker.
    pub fn run(&mut self) -> (r: Vec<TokenSpan>)
        requires
            old(self).wf(),
        ensures
            final(self).wf(),
            final(self).source == old(self).source,
            final(self).cursor == final(self).source.len(),
            r.len() >= 1,
            r@.last().token == Token::EOF,
            forall|i: int| 0 <= i < r.len() - 1 ==> #[trigger] r@[i].token != Token::EOF,
    {
        let mut tokens: Vec<TokenSpan> = Vec::new();
        while !self.is_at_end()
            invariant
                self.wf(),
                self.source == old(self).source,
                forall|i: int| 0 <= i < tokens.len() ==> #[trigger] tokens@[i].token != Token::EOF,
            decreases self.source.len() - self.cursor,
        {
            if let Some(token) = self.next_token() {
                tokens.push(TokenSpan { token, line: self.line, column: self.column });
            }
        }
        tokens.push(TokenSpan { token: Token::EOF, line: self.line, column: self.column });
        tokens
    }
}

/// The token of a character that stands alone.
pub open spec fn single_token(c: char) -> Option<Token> {
    if c == '(' { Some(Token::LParen) }
    else if c == ')' { Some(Token::RParen) }
    else if c == '[' { Some(Token::LBracket) }
    else if c == ']' { Some(Token::RBracket) }
    else if c == '{' { Some(Token::LBrace) }
    else if c == '}' { Some(Token::RBrace) }
    else if c == '+' { Some(Token::Plus) }
    else if c == '*' { Some(Token::Star) }
    else if c == '^' { Some(Token::Caret) }
    else { None }
}

/// The tokens of a source text, ending with the end-of-file marker.
pub fn tokenize(raw: String) -> (r: Vec<TokenSpan>)
    requires
        raw@.len() < usize::MAX,
    ensures
        r.len() >= 1,
        r@.last().token == Token::EOF,
        forall|i: int| 0 <= i < r.len() - 1 ==> #[trigger] r@[i].token != Token::EOF,
{
    let mut lexer = Lexer::new(raw);
    lexer.run()
}

pub proof fn lemma_digits_value_nonneg(s: Seq<char>)
    requires
        forall|i: int| 0 <= i < s.len() ==> digit_char(#[trigger] s[i]),
    ensures
        digits_value(s) >= 0,
    decreases s.len(),
{
    if s.len() > 0 {
        lemma_digits_value_nonneg(s.drop_last());
    }
}

} // verus!
