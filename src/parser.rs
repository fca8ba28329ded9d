use vstd::prelude::*;

use crate::ast::{Expr, Stmt};
use crate::lexer::{Token, TokenSpan};
use crate::text::text_of;

verus! {

/// Builds statements from tokens by recursive descent. Binary operators bind,
/// from loosest to tightest: `==`, then `>` and `<`, then `+` and `-`, then
/// `*` and `/`; all are left-associative.
pub struct Parser {
    pub tokens: Vec<TokenSpan>,
    pub current: usize,
}

impl Parser {
    pub open spec fn wf(&self) -> bool {
        self.current <= self.tokens.len()
    }

    pub open spec fn remaining(&self) -> int {
        self.tokens.len() - self.current
    }

    /// A parser at the first token.
    pub fn new(tokens: Vec<TokenSpan>) -> (r: Self)
        ensures
            r.wf(),
            r.tokens == tokens,
            r.current == 0,
    {
        Parser { tokens, current: 0 }
    }

    fn peek(&self) -> (r: Option<&Token>)
        requires
            self.wf(),
        ensures
            r == if self.current < self.tokens.len() {
                Some(&self.tokens@[self.current as int].token)
            } else {
                None
            },
    {
        if self.current < self.tokens.len() { Some(&self.tokens[self.current].token) } else { None }
    }

    fn peek_second(&self) -> (r: Option<&Token>)
        requires
            self.wf(),
    {
        if self.current < self.tokens.len() && self.current + 1 < self.tokens.len() {
            Some(&self.tokens[self.current + 1].token)
        } else {
            None
        }
    }

    fn step(&mut self)
        requires
            old(self).wf(),
            old(self).current < old(self).tokens.len(),
        ensures
            final(self).wf(),
            final(self).tokens == old(self).tokens,
            final(self).current == old(self).current + 1,
    {
        self.current = self.current + 1;
    }

    /// Whether the next token ends a statement: a line break, the end marker,
    /// or nothing at all.
    fn at_statement_end(&self) -> (r: bool)
        requires
            self.wf(),
    {
        match self.peek() {
            Some(Token::NewLine) => true,
            Some(Token::EOF) => true,
            None => true,
            _ => false,
        }
    }

    fn expect_closing(&mut self, closing_paren: bool, message: &str) -> (r: Result<(), String>)
        requires
            old(self).wf(),
        ensures
            final(self).wf(),
            final(self).tokens == old(self).tokens,
            r is Ok ==> final(self).current == old(self).current + 1,
            r is Err ==> final(self).current == old(self).current,
    {
        let found = match self.peek() {
            Some(Token::RParen) => closing_paren,
            Some(Token::RBracket) => !closing_paren,
            _ => false,
        };
        if found {
            self.step();
            Ok(())
        } else {
            Err(text_of(message))
        }
    }

    /// A literal, variable, grouping, interval or call.
    pub fn primary(&mut self) -> (r: Result<Expr, String>)
        requires
            old(self).wf(),
        ensures
            final(self).wf(),
            final(self).tokens == old(self).tokens,
            old(self).current <= final(self).current,
            r is Ok ==> old(self).current < final(self).current,
            (old(self).current < old(self).tokens.len() && old(self).tokens@[old(self).current as int].token is RParen) ==> r is Err,
        decreases old(self).remaining(), 0nat,
    {
        let token = match self.peek() {
            Some(t) => t.duplicate(),
            None => {
                return Err(text_of("Expected expression"));
            },
        };
        match token {
            Token::Number(_) | Token::String(_) | Token::True | Token::False | Token::Partial
            | Token::Unknown | Token::Nil => {
                self.step();
                Ok(Expr::Literal { value: token })
            },
            Token::Identifier(_) | Token::Print | Token::Kind => {
                let line = self.tokens[self.current].line;
                let column = self.tokens[self.current].column;
                self.step();
                let is_call = match self.peek() {
                    Some(Token::LParen) => true,
                    _ => false,
                };
                if !is_call {
                    return Ok(Expr::Variable { name: token });
                }
                self.step();
                let mut arguments: Vec<Expr> = Vec::new();
                let empty = match self.peek() {
                    Some(Token::RParen) => true,
                    _ => false,
                };
                if empty {
                    self.step();
                    return Ok(Expr::Call { callee: Box::new(Expr::Variable { name: token }), arguments, line, column });
                }
                let ghost start = old(self).current;
                loop
                    invariant
                        self.wf(),
                        self.tokens == old(self).tokens,
                        start == old(self).current,
                        start < self.current,
                    decreases self.remaining(),
                {
                    let arg = self.expression()?;
                    arguments.push(arg);
                    let comma = match self.peek() {
                        Some(Token::UnknownChar(c)) => *c == ',',
                        _ => false,
                    };
                    if comma {
                        self.step();
                    } else {
                        break;
                    }
                }
                self.expect_closing(true, "Expected ')' after arguments")?;
                Ok(Expr::Call { callee: Box::new(Expr::Variable { name: token }), arguments, line, column })
            },
            Token::LParen => {
                self.step();
                let inner = self.expression()?;
                self.expect_closing(true, "Expected ')' after expression")?;
                Ok(Expr::Grouping { expression: Box::new(inner) })
            },
            Token::LBracket => {
                self.step();
                let min = self.expression()?;
                let sep = match self.peek() {
                    Some(Token::RangeSep) => true,
                    _ => false,
                };
                if !sep {
                    return Err(text_of("Expected '..' in interval"));
                }
                self.step();
                let max = self.expression()?;
                self.expect_closing(false, "Expected ']' after interval")?;
                Ok(Expr::Interval { min: Box::new(min), max: Box::new(max) })
            },
            _ => Err(text_of("Expected expression")),
        }
    }

    /// A negation or logical not, or a primary expression.
    pub fn unary(&mut self) -> (r: Result<Expr, String>)
        requires
            old(self).wf(),
        ensures
            final(self).wf(),
            final(self).tokens == old(self).tokens,
            old(self).current <= final(self).current,
            r is Ok ==> old(self).current < final(self).current,
            (old(self).current < old(self).tokens.len() && old(self).tokens@[old(self).current as int].token is RParen) ==> r is Err,
        decreases old(self).remaining(), 1nat,
    {
        let op = match self.peek() {
            Some(Token::Minus) => Some(Token::Minus),
            Some(Token::Not) => Some(Token::Not),
            _ => None,
        };
        match op {
            Some(operator) => {
                self.step();
                let right = self.unary()?;
                Ok(Expr::Unary { operator, right: Box::new(right) })
            },
            None => self.primary(),
        }
    }

    /// The operator at the cursor if it belongs to the given binding level.
    fn operator_at(&self, level: u8) -> (r: Option<Token>)
        requires
            self.wf(),
        ensures
            r is Some ==> self.current < self.tokens.len(),
    {
        match self.peek() {
            Some(Token::Star) => if level == 2 { Some(Token::Star) } else { None },
            Some(Token::Slash) => if level == 2 { Some(Token::Slash) } else { None },
            Some(Token::Plus) => if level == 3 { Some(Token::Plus) } else { None },
            Some(Token::Minus) => if level == 3 { Some(Token::Minus) } else { None },
            Some(Token::Greater) => if level == 4 { Some(Token::Greater) } else { None },
            Some(Token::Less) => if level == 4 { Some(Token::Less) } else { None },
            Some(Token::Equal) => if level == 5 { Some(Token::Equal) } else { None },
            _ => None,
        }
    }

    /// A left-associative chain of the operators of `level` (2 to 5) over
    /// operands of the next tighter level.
    pub fn binary(&mut self, level: u8) -> (r: Result<Expr, String>)
        requires
            old(self).wf(),
            2 <= level <= 5,
        ensures
            final(self).wf(),
            final(self).tokens == old(self).tokens,
            old(self).current <= final(self).current,
            r is Ok ==> old(self).current < final(self).current,
            (old(self).current < old(self).tokens.len() && old(self).tokens@[old(self).current as int].token is RParen) ==> r is Err,
        decreases old(self).remaining(), level,
    {
        let mut left = if level == 2 { self.unary()? } else { self.binary(level - 1)? };
        let ghost start = old(self).current;
        loop
            invariant
                self.wf(),
                self.tokens == old(self).tokens,
                start == old(self).current,
                start < self.current,
                2 <= level <= 5,
            decreases self.remaining(),
        {
            let operator = match self.operator_at(level) {
                Some(op) => op,
                None => {
                    break;
                },
            };
            self.step();
            let right = if level == 2 { self.unary()? } else { self.binary(level - 1)? };
            left = Expr::Binary { left: Box::new(left), operator, right: Box::new(right) };
        }
        Ok(left)
    }

    /// An expression.
    pub fn expression(&mut self) -> (r: Result<Expr, String>)
        requires
            old(self).wf(),
        ensures
            final(self).wf(),
            final(self).tokens == old(self).tokens,
            old(self).current <= final(self).current,
            r is Ok ==> old(self).current < final(self).current,
            (old(self).current < old(self).tokens.len() && old(self).tokens@[old(self).current as int].token is RParen) ==> r is Err,
        decreases old(self).remaining(), 6nat,
    {
        self.binary(5)
    }

    /// One statement: `let`, `print`, `panic`, an assignment or an expression.
    /// A `print` directly followed by `(` is a call of the built-in.
    pub fn statement(&mut self) -> (r: Result<Stmt, String>)
        requires
            old(self).wf(),
        ensures
            final(self).wf(),
            final(self).tokens == old(self).tokens,
            old(self).current <= final(self).current,
            r is Ok ==> old(self).current < final(self).current,
            (old(self).current < old(self).tokens.len() && old(self).tokens@[old(self).current as int].token is RParen) ==> r is Err,
    {
        let head = match self.peek() {
            Some(t) => t.duplicate(),
            None => {
                return Err(text_of("Expected statement"));
            },
        };
        match head {
            Token::Let => {
                self.step();
                let name = match self.peek() {
                    Some(Token::Identifier(n)) => Token::Identifier(n.clone()),
                    _ => {
                        return Err(text_of("Expected variable name after 'let'"));
                    },
                };
                self.step();
                let assign = match self.peek() {
                    Some(Token::Assign) => true,
                    _ => false,
                };
                if !assign {
                    return Err(text_of("Expected '=' after variable name"));
                }
                self.step();
                let initializer = self.expression()?;
                Ok(Stmt::Let { name, initializer })
            },
            Token::Print => {
                let call = match self.peek_second() {
                    Some(Token::LParen) => true,
                    _ => false,
                };
                if call {
                    let expression = self.expression()?;
                    return Ok(Stmt::Expression { expression });
                }
                self.step();
                let expression = self.expression()?;
                Ok(Stmt::Print { expression })
            },
            Token::Panic => {
                self.step();
                Ok(Stmt::Panic)
            },
            Token::Identifier(_) => {
                let assign = match self.peek_second() {
                    Some(Token::Assign) => true,
                    _ => false,
                };
                if assign && self.current + 1 < self.tokens.len() {
                    self.step();
                    self.step();
                    let value = self.expression()?;
                    Ok(Stmt::Assign { name: head, value })
                } else {
                    let expression = self.expression()?;
                    Ok(Stmt::Expression { expression })
                }
            },
            _ => {
                let expression = self.expression()?;
                Ok(Stmt::Expression { expression })
            },
        }
    }

    /// All statements up to the end of the tokens, one per line; blank lines
    /// are skipped.
    pub fn parse(&mut self) -> (r: Result<Vec<Stmt>, String>)
        requires
            old(self).wf(),
        ensures
            final(self).wf(),
            final(self).tokens == old(self).tokens,
            (forall|i: int| old(self).current <= i < old(self).tokens.len()
                ==> (#[trigger] old(self).tokens@[i].token is NewLine || old(self).tokens@[i].token is EOF))
                ==> r is Ok && r->Ok_0@.len() == 0,
            (old(self).current < old(self).tokens.len()
                && old(self).tokens@[old(self).current as int].token is RParen) ==> r is Err,
    {
        let mut statements: Vec<Stmt> = Vec::new();
        let ghost blank = forall|i: int| old(self).current <= i < old(self).tokens.len()
            ==> (#[trigger] old(self).tokens@[i].token is NewLine || old(self).tokens@[i].token is EOF);
        loop
            invariant
                self.wf(),
                self.tokens == old(self).tokens,
                old(self).current <= self.current,
                blank == forall|i: int| old(self).current <= i < old(self).tokens.len()
                    ==> (#[trigger] old(self).tokens@[i].token is NewLine || old(self).tokens@[i].token is EOF),
                blank ==> statements@.len() == 0,
                (old(self).current < old(self).tokens.len()
                    && old(self).tokens@[old(self).current as int].token is RParen) ==> self.current == old(self).current,
            ensures
                self.wf(),
                self.tokens == old(self).tokens,
                blank ==> statements@.len() == 0,
                !(old(self).current < old(self).tokens.len()
                    && old(self).tokens@[old(self).current as int].token is RParen),
            decreases self.remaining(),
        {
            let line_break = match self.peek() {
                Some(Token::NewLine) => true,
                _ => false,
            };
            if line_break {
                self.step();
                continue;
            }
            let done = match self.peek() {
                Some(Token::EOF) => true,
                None => true,
                _ => false,
            };
            if done {
                break;
            }
            let stmt = self.statement()?;
            if !self.at_statement_end() {
                return Err(text_of("Expected end of statement"));
            }
            statements.push(stmt);
        }
        Ok(statements)
    }
}

} // verus!
