use vstd::prelude::*;

use crate::ast::{Expr, Stmt};
use crate::binary::{apply_binary, binary_spec, BinaryError};
use crate::env::{chain_define, chain_lookup, Environment, Frame};
use crate::error::Error;
use crate::lexer::{Token, TokenSpan};
use crate::libs::math::{sqrt, sqrt_spec};
use crate::text::{join3, same_text, text_of};
use crate::value::{Native, SKBool, Val, Value};

verus! {

/// Why evaluation stopped.
#[derive(Debug)]
pub enum EvalError {
    /// A binary operator, or a negation, failed.
    Binary(BinaryError),
    /// A variable was read that no scope binds; holds the message.
    UndefinedVariable(String),
    InvalidIdentifier,
    UnsupportedLiteral,
    BoundsNotNumbers,
    InvalidUnary,
    NotCallable,
    CalleeNotIdentifier,
    /// A built-in was called with the wrong number of arguments; holds its name.
    Arity(String),
    /// A call named no built-in and no native function; holds the name.
    UndefinedFunction(String),
    /// A native function failed.
    Native(Error),
    /// A `panic` statement ran.
    Panicked,
}

/// The model of an evaluation error.
pub enum Fault {
    Binary(BinaryError),
    UndefinedVariable(Seq<char>),
    InvalidIdentifier,
    UnsupportedLiteral,
    BoundsNotNumbers,
    InvalidUnary,
    NotCallable,
    CalleeNotIdentifier,
    Arity(Seq<char>),
    UndefinedFunction(Seq<char>),
    /// A native function's message, with the line and column of the call site.
    Native(Seq<char>, int, int),
    Panicked,
}

impl View for EvalError {
    type V = Fault;

    open spec fn view(&self) -> Fault {
        match self {
            EvalError::Binary(e) => Fault::Binary(*e),
            EvalError::UndefinedVariable(m) => Fault::UndefinedVariable(m@),
            EvalError::InvalidIdentifier => Fault::InvalidIdentifier,
            EvalError::UnsupportedLiteral => Fault::UnsupportedLiteral,
            EvalError::BoundsNotNumbers => Fault::BoundsNotNumbers,
            EvalError::InvalidUnary => Fault::InvalidUnary,
            EvalError::NotCallable => Fault::NotCallable,
            EvalError::CalleeNotIdentifier => Fault::CalleeNotIdentifier,
            EvalError::Arity(n) => Fault::Arity(n@),
            EvalError::UndefinedFunction(n) => Fault::UndefinedFunction(n@),
            EvalError::Native(e) => Fault::Native(e.message@, e.token.line as int, e.token.column as int),
            EvalError::Panicked => Fault::Panicked,
        }
    }
}

/// The message that reports an error.
pub open spec fn fault_message(f: Fault) -> Seq<char> {
    match f {
        Fault::Binary(BinaryError::DivisionByZero) => "Division by zero"@,
        Fault::Binary(BinaryError::InexactDivision) => "Division has no whole result"@,
        Fault::Binary(BinaryError::OutOfRange) => "Number out of range"@,
        Fault::Binary(BinaryError::Unsupported) => "Operation not supported for these types"@,
        Fault::UndefinedVariable(m) => m,
        Fault::InvalidIdentifier => "Invalid identifier for variable lookup"@,
        Fault::UnsupportedLiteral => "Unsupported literal"@,
        Fault::BoundsNotNumbers => "Interval bounds must be numbers"@,
        Fault::InvalidUnary => "Invalid unary operation"@,
        Fault::NotCallable => "Only identifiers or built-in keywords can be called."@,
        Fault::CalleeNotIdentifier => "Only identifiers can be called."@,
        Fault::Arity(n) => ""@ + n + "() expects exactly 1 argument."@,
        Fault::UndefinedFunction(n) => "Undefined function '"@ + n + "'."@,
        Fault::Native(m, _, _) => m,
        Fault::Panicked => "Program panicked!"@,
    }
}

impl EvalError {
    /// The message that reports this error.
    pub fn message(&self) -> (r: String)
        ensures
            r@ == fault_message(self@),
    {
        match self {
            EvalError::Binary(BinaryError::DivisionByZero) => text_of("Division by zero"),
            EvalError::Binary(BinaryError::InexactDivision) => text_of("Division has no whole result"),
            EvalError::Binary(BinaryError::OutOfRange) => text_of("Number out of range"),
            EvalError::Binary(BinaryError::Unsupported) => text_of("Operation not supported for these types"),
            EvalError::UndefinedVariable(m) => m.clone(),
            EvalError::InvalidIdentifier => text_of("Invalid identifier for variable lookup"),
            EvalError::UnsupportedLiteral => text_of("Unsupported literal"),
            EvalError::BoundsNotNumbers => text_of("Interval bounds must be numbers"),
            EvalError::InvalidUnary => text_of("Invalid unary operation"),
            EvalError::NotCallable => text_of("Only identifiers or built-in keywords can be called."),
            EvalError::CalleeNotIdentifier => text_of("Only identifiers can be called."),
            EvalError::Arity(n) => join3("", n.as_str(), "() expects exactly 1 argument."),
            EvalError::UndefinedFunction(n) => join3("Undefined function '", n.as_str(), "'."),
            EvalError::Native(e) => e.message.clone(),
            EvalError::Panicked => text_of("Program panicked!"),
        }
    }
}

/// The result of evaluating something, with the lines it printed.
pub type Outcome = (Result<Val, Fault>, Seq<Seq<char>>);

pub open spec fn outcome_view(r: Result<Value, EvalError>) -> Result<Val, Fault> {
    match r {
        Ok(v) => Ok(v@),
        Err(e) => Err(e@),
    }
}

pub open spec fn literal_spec(t: Token) -> Result<Val, Fault> {
    match t {
        Token::Number(n) => Ok(Val::Number(n as int)),
        Token::String(s) => Ok(Val::Str(s@)),
        Token::True => Ok(Val::Bool(SKBool::True)),
        Token::False => Ok(Val::Bool(SKBool::False)),
        Token::Partial => Ok(Val::Bool(SKBool::Partial)),
        Token::Unknown => Ok(Val::Unknown),
        Token::Nil => Ok(Val::Nil),
        _ => Err(Fault::UnsupportedLiteral),
    }
}

pub open spec fn variable_spec(frames: Seq<Frame>, name: Token) -> Result<Val, Fault> {
    match name {
        Token::Identifier(n) => match chain_lookup(frames, n@) {
            Some(v) => Ok(v),
            None => Err(Fault::UndefinedVariable("Use of undefined variable '"@ + n@ + "'."@)),
        },
        _ => Err(Fault::InvalidIdentifier),
    }
}

pub open spec fn interval_spec(lo: Val, hi: Val) -> Result<Val, Fault> {
    match (lo, hi) {
        (Val::Number(l), Val::Number(h)) => Ok(Val::Interval(l, h)),
        _ => Err(Fault::BoundsNotNumbers),
    }
}

pub open spec fn binary_fault(r: Result<Val, BinaryError>) -> Result<Val, Fault> {
    match r {
        Ok(v) => Ok(v),
        Err(e) => Err(Fault::Binary(e)),
    }
}

pub open spec fn unary_spec(op: Token, v: Val) -> Result<Val, Fault> {
    match (op, v) {
        (Token::Minus, Val::Number(n)) => if -n <= i64::MAX {
            Ok(Val::Number(-n))
        } else {
            Err(Fault::Binary(BinaryError::OutOfRange))
        },
        (Token::Not, Val::Bool(SKBool::True)) => Ok(Val::Bool(SKBool::False)),
        (Token::Not, Val::Bool(SKBool::False)) => Ok(Val::Bool(SKBool::True)),
        _ => Err(Fault::InvalidUnary),
    }
}

/// The name a call goes to: an identifier, or the keywords `print` and `kind`.
pub open spec fn callee_spec(callee: Expr) -> Result<Seq<char>, Fault> {
    match callee {
        Expr::Variable { name } => match name {
            Token::Identifier(n) => Ok(n@),
            Token::Print => Ok("print"@),
            Token::Kind => Ok("kind"@),
            _ => Err(Fault::NotCallable),
        },
        _ => Err(Fault::CalleeNotIdentifier),
    }
}

/// A native function's result; a failure carries the call site.
pub open spec fn native_spec(f: Native, args: Seq<Val>, line: int, column: int) -> Result<Val, Fault> {
    match f {
        Native::Sqrt => match sqrt_spec(args) {
            Ok(v) => Ok(v),
            Err(m) => Err(Fault::Native(m, line, column)),
        },
    }
}

/// A call of `name` on evaluated arguments: the built-ins `print`, `kind`
/// and `str`, then the native functions bound in the environment, which are
/// handed the call site at `line` and `column`.
pub open spec fn call_spec(frames: Seq<Frame>, name: Seq<char>, args: Seq<Val>, line: int, column: int) -> Outcome {
    if name == "print"@ {
        (Ok(Val::Nil), args.map_values(|v: Val| v.display()))
    } else if name == "kind"@ {
        if args.len() != 1 {
            (Err(Fault::Arity(name)), Seq::empty())
        } else {
            (Ok(Val::Str(args[0].kind_name())), Seq::empty())
        }
    } else if name == "str"@ {
        if args.len() != 1 {
            (Err(Fault::Arity(name)), Seq::empty())
        } else {
            (Ok(Val::Str(args[0].display())), Seq::empty())
        }
    } else {
        match chain_lookup(frames, name) {
            Some(Val::NativeFn(f)) => (native_spec(f, args, line, column), Seq::empty()),
            _ => (Err(Fault::UndefinedFunction(name)), Seq::empty()),
        }
    }
}

/// Arguments evaluated left to right, stopping at the first failure.
pub open spec fn eval_args(frames: Seq<Frame>, args: Seq<Expr>) -> (Result<Seq<Val>, Fault>, Seq<Seq<char>>)
    decreases args,
{
    if args.len() == 0 {
        (Ok(Seq::empty()), Seq::empty())
    } else {
        let p = eval_args(frames, args.subrange(0, args.len() - 1));
        match p.0 {
            Err(f) => (Err(f), p.1),
            Ok(vals) => {
                let o = eval_spec(frames, args[args.len() - 1]);
                match o.0 {
                    Ok(v) => (Ok(vals.push(v)), p.1 + o.1),
                    Err(f) => (Err(f), p.1 + o.1),
                }
            },
        }
    }
}

/// What an expression evaluates to in a chain of frames, and what it prints.
pub open spec fn eval_spec(frames: Seq<Frame>, e: Expr) -> Outcome
    decreases e,
{
    match e {
        Expr::Literal { value } => (literal_spec(value), Seq::empty()),
        Expr::Variable { name } => (variable_spec(frames, name), Seq::empty()),
        Expr::Interval { min, max } => {
            let a = eval_spec(frames, *min);
            match a.0 {
                Err(f) => (Err(f), a.1),
                Ok(lo) => {
                    let b = eval_spec(frames, *max);
                    match b.0 {
                        Err(f) => (Err(f), a.1 + b.1),
                        Ok(hi) => (interval_spec(lo, hi), a.1 + b.1),
                    }
                },
            }
        },
        Expr::Binary { left, operator, right } => {
            let a = eval_spec(frames, *left);
            match a.0 {
                Err(f) => (Err(f), a.1),
                Ok(l) => {
                    let b = eval_spec(frames, *right);
                    match b.0 {
                        Err(f) => (Err(f), a.1 + b.1),
                        Ok(r) => (binary_fault(binary_spec(l, operator, r)), a.1 + b.1),
                    }
                },
            }
        },
        Expr::Unary { operator, right } => {
            let a = eval_spec(frames, *right);
            match a.0 {
                Err(f) => (Err(f), a.1),
                Ok(v) => (unary_spec(operator, v), a.1),
            }
        },
        Expr::Grouping { expression } => eval_spec(frames, *expression),
        Expr::Call { callee, arguments, line, column } => match callee_spec(*callee) {
            Err(f) => (Err(f), Seq::empty()),
            Ok(name) => {
                let p = eval_args(frames, arguments@);
                match p.0 {
                    Err(f) => (Err(f), p.1),
                    Ok(vals) => {
                        let c = call_spec(frames, name, vals, line as int, column as int);
                        (c.0, p.1 + c.1)
                    },
                }
            },
        },
    }
}

/// A binding statement's effect on the frames: a `let`, and an assignment
/// alike, bind the name in the innermost scope.
pub open spec fn bind_spec(frames: Seq<Frame>, name: Token, v: Val) -> Seq<Frame> {
    match name {
        Token::Identifier(n) => chain_define(frames, n@, v),
        _ => frames,
    }
}

/// What a statement yields and prints, and the frames after it.
pub open spec fn stmt_spec(frames: Seq<Frame>, s: Stmt) -> (Outcome, Seq<Frame>) {
    match s {
        Stmt::Let { name, initializer } => {
            let o = eval_spec(frames, initializer);
            match o.0 {
                Err(f) => ((Err(f), o.1), frames),
                Ok(v) => ((Ok(Val::Nil), o.1), bind_spec(frames, name, v)),
            }
        },
        Stmt::Print { expression } => {
            let o = eval_spec(frames, expression);
            match o.0 {
                Err(f) => ((Err(f), o.1), frames),
                Ok(v) => ((Ok(Val::Nil), o.1.push(v.display())), frames),
            }
        },
        Stmt::Panic => ((Err(Fault::Panicked), Seq::empty()), frames),
        Stmt::Expression { expression } => (eval_spec(frames, expression), frames),
        Stmt::Assign { name, value } => {
            let o = eval_spec(frames, value);
            match o.0 {
                Err(f) => ((Err(f), o.1), frames),
                Ok(v) => ((Ok(Val::Nil), o.1), bind_spec(frames, name, v)),
            }
        },
    }
}

/// Statements run in order, stopping at the first failure: the last
/// statement's value (none for an empty program), the lines printed, and the
/// frames at the end.
pub open spec fn program_spec(frames: Seq<Frame>, stmts: Seq<Stmt>) -> (Result<Val, Fault>, Seq<Seq<char>>, Seq<Frame>)
    decreases stmts.len(),
{
    if stmts.len() == 0 {
        (Ok(Val::Nil), Seq::empty(), frames)
    } else {
        let p = program_spec(frames, stmts.drop_last());
        match p.0 {
            Err(f) => p,
            Ok(_) => {
                let (o, after) = stmt_spec(p.2, stmts.last());
                (o.0, p.1 + o.1, after)
            },
        }
    }
}

pub proof fn lemma_program_failure_stays(frames: Seq<Frame>, stmts: Seq<Stmt>, i: int, k: int)
    requires
        0 <= i <= k <= stmts.len(),
        program_spec(frames, stmts.take(i)).0 is Err,
    ensures
        program_spec(frames, stmts.take(k)) == program_spec(frames, stmts.take(i)),
    decreases k - i,
{
    if k > i {
        lemma_program_failure_stays(frames, stmts, i, k - 1);
        assert(stmts.take(k).drop_last() =~= stmts.take(k - 1));
    }
}

pub proof fn lemma_args_failure_stays(frames: Seq<Frame>, args: Seq<Expr>, i: int, k: int)
    requires
        0 <= i <= k <= args.len(),
        eval_args(frames, args.subrange(0, i)).0 is Err,
    ensures
        eval_args(frames, args.subrange(0, k)) == eval_args(frames, args.subrange(0, i)),
    decreases k - i,
{
    if k > i {
        lemma_args_failure_stays(frames, args, i, k - 1);
        let t = args.subrange(0, k);
        assert(t.subrange(0, t.len() - 1) =~= args.subrange(0, k - 1));
    }
}

/// Runs statements against an environment, collecting what they print.
#[derive(Debug)]
pub struct Evaluator {
    env: Environment,
    output: Vec<String>,
}

impl Evaluator {
    pub closed spec fn wf(&self) -> bool {
        self.env.wf()
    }

    /// The frames of the environment, innermost first.
    pub closed spec fn frames(&self) -> Seq<Frame> {
        self.env.frames()
    }

    /// The lines printed so far.
    pub closed spec fn printed(&self) -> Seq<Seq<char>> {
        self.output@.map_values(|s: String| s@)
    }

    /// An evaluator always has at least its innermost frame.
    pub proof fn lemma_frames_nonempty(&self)
        requires
            self.wf(),
        ensures
            self.frames().len() >= 1,
    {
        self.env.lemma_frames_len();
    }

    /// An evaluator over `env` that has printed nothing.
    pub fn new(env: Environment) -> (r: Self)
        requires
            env.wf(),
        ensures
            r.wf(),
            r.frames() == env.frames(),
            r.printed() == Seq::<Seq<char>>::empty(),
    {
        let r = Evaluator { env, output: Vec::new() };
        proof {
            assert(r.printed() =~= Seq::<Seq<char>>::empty());
        }
        r
    }

    /// The lines printed so far.
    pub fn output(&self) -> (r: &Vec<String>)
        ensures
            r@.map_values(|s: String| s@) == self.printed(),
    {
        &self.output
    }

    /// Ends evaluation, handing back the environment and the printed lines.
    pub fn into_parts(self) -> (r: (Environment, Vec<String>))
        requires
            self.wf(),
        ensures
            r.0.wf(),
            r.0.frames() == self.frames(),
            r.1@.map_values(|s: String| s@) == self.printed(),
    {
        (self.env, self.output)
    }

    fn emit(&mut self, line: String)
        ensures
            final(self).env == old(self).env,
            final(self).printed() == old(self).printed().push(line@),
    {
        self.output.push(line);
        proof {
            assert(self.printed() =~= old(self).printed().push(line@));
        }
    }

    fn call(&mut self, name: String, args: Vec<Value>, line: usize, column: usize) -> (r: Result<Value, EvalError>)
        requires
            old(self).wf(),
        ensures
            final(self).wf(),
            final(self).frames() == old(self).frames(),
            outcome_view(r) == call_spec(old(self).frames(), name@, args@.map_values(|a: Value| a@), line as int, column as int).0,
            final(self).printed() == old(self).printed()
                + call_spec(old(self).frames(), name@, args@.map_values(|a: Value| a@), line as int, column as int).1,
    {
        let ghost vals = args@.map_values(|a: Value| a@);
        if same_text(name.as_str(), "print") {
            let mut i: usize = 0;
            while i < args.len()
                invariant
                    i <= args.len(),
                    self.env == old(self).env,
                    vals == args@.map_values(|a: Value| a@),
                    self.printed() == old(self).printed()
                        + vals.subrange(0, i as int).map_values(|v: Val| v.display()),
                decreases args.len() - i,
            {
                let line = args[i].to_display();
                self.emit(line);
                proof {
                    assert(vals.subrange(0, i + 1).map_values(|v: Val| v.display())
                        =~= vals.subrange(0, i as int).map_values(|v: Val| v.display()).push(vals[i as int].display()));
                }
                i = i + 1;
            }
            proof {
                assert(vals.subrange(0, i as int) =~= vals);
                assert(self.printed() =~= old(self).printed() + vals.map_values(|v: Val| v.display()));
            }
            return Ok(Value::Nil);
        }
        if same_text(name.as_str(), "kind") {
            if args.len() != 1 {
                proof {
                    assert(old(self).printed() + Seq::<Seq<char>>::empty() =~= old(self).printed());
                }
                return Err(EvalError::Arity(name));
            }
            proof {
                assert(old(self).printed() + Seq::<Seq<char>>::empty() =~= old(self).printed());
            }
            return Ok(Value::String(args[0].kind_name()));
        }
        if same_text(name.as_str(), "str") {
            proof {
                assert(old(self).printed() + Seq::<Seq<char>>::empty() =~= old(self).printed());
            }
            if args.len() != 1 {
                return Err(EvalError::Arity(name));
            }
            return Ok(Value::String(args[0].to_display()));
        }
        proof {
            assert(old(self).printed() + Seq::<Seq<char>>::empty() =~= old(self).printed());
        }
        match self.env.get(name.as_str()) {
            Ok(Value::NativeFn(f)) => match f {
                Native::Sqrt => match sqrt(&args, TokenSpan { token: Token::LParen, line, column }) {
                    Ok(v) => Ok(v),
                    Err(e) => Err(EvalError::Native(e)),
                },
            },
            _ => Err(EvalError::UndefinedFunction(name)),
        }
    }

    /// Evaluates an expression; the environment is left as it was.
    pub fn eval_expr(&mut self, expr: &Expr) -> (r: Result<Value, EvalError>)
        requires
            old(self).wf(),
        ensures
            final(self).wf(),
            final(self).frames() == old(self).frames(),
            outcome_view(r) == eval_spec(old(self).frames(), *expr).0,
            final(self).printed() == old(self).printed() + eval_spec(old(self).frames(), *expr).1,
        decreases expr,
    {
        let ghost frames = self.frames();
        let ghost p0 = self.printed();
        proof {
            assert(p0 + Seq::<Seq<char>>::empty() =~= p0);
        }
        match expr {
            Expr::Literal { value } => match value {
                Token::Number(n) => Ok(Value::Number(*n)),
                Token::String(s) => Ok(Value::String(s.clone())),
                Token::True => Ok(Value::Bool(SKBool::True)),
                Token::False => Ok(Value::Bool(SKBool::False)),
                Token::Partial => Ok(Value::Bool(SKBool::Partial)),
                Token::Unknown => Ok(Value::Unknown),
                Token::Nil => Ok(Value::Nil),
                _ => Err(EvalError::UnsupportedLiteral),
            },
            Expr::Variable { name } => match name {
                Token::Identifier(n) => match self.env.get(n.as_str()) {
                    Ok(v) => Ok(v),
                    Err(m) => Err(EvalError::UndefinedVariable(m)),
                },
                _ => Err(EvalError::InvalidIdentifier),
            },
            Expr::Interval { min, max } => {
                let low = self.eval_expr(min)?;
                let high = self.eval_expr(max);
                proof {
                    assert(self.printed() =~= p0 + eval_spec(frames, **min).1 + eval_spec(frames, **max).1);
                }
                let high = high?;
                match (low, high) {
                    (Value::Number(l), Value::Number(h)) => Ok(Value::Interval(l, h)),
                    _ => Err(EvalError::BoundsNotNumbers),
                }
            },
            Expr::Binary { left, operator, right } => {
                let l_val = self.eval_expr(left)?;
                let r_val = self.eval_expr(right);
                proof {
                    assert(self.printed() =~= p0 + eval_spec(frames, **left).1 + eval_spec(frames, **right).1);
                }
                let r_val = r_val?;
                match apply_binary(l_val, operator, r_val) {
                    Ok(v) => Ok(v),
                    Err(e) => Err(EvalError::Binary(e)),
                }
            },
            Expr::Unary { operator, right } => {
                let val = self.eval_expr(right)?;
                match (operator, val) {
                    (Token::Minus, Value::Number(n)) => if n == i64::MIN {
                        Err(EvalError::Binary(BinaryError::OutOfRange))
                    } else {
                        Ok(Value::Number(-n))
                    },
                    (Token::Not, Value::Bool(SKBool::True)) => Ok(Value::Bool(SKBool::False)),
                    (Token::Not, Value::Bool(SKBool::False)) => Ok(Value::Bool(SKBool::True)),
                    _ => Err(EvalError::InvalidUnary),
                }
            },
            Expr::Grouping { expression } => self.eval_expr(expression),
            Expr::Call { callee, arguments, line, column } => {
                let name = match &**callee {
                    Expr::Variable { name } => match name {
                        Token::Identifier(n) => n.clone(),
                        Token::Print => text_of("print"),
                        Token::Kind => text_of("kind"),
                        _ => {
                            return Err(EvalError::NotCallable);
                        },
                    },
                    _ => {
                        return Err(EvalError::CalleeNotIdentifier);
                    },
                };
                let ghost args = arguments@;
                let mut eval_args_v: Vec<Value> = Vec::new();
                let mut i: usize = 0;
                proof {
                    assert(args.subrange(0, 0) =~= Seq::<Expr>::empty());
                    assert(eval_args_v@.map_values(|a: Value| a@) =~= Seq::<Val>::empty());
                    assert forall|j: int| 0 <= j < arguments.len() implies
                        decreases_to!(*expr => arguments[j]) by {
                        assert(decreases_to!(*arguments => arguments[j]));
                    }
                }
                while i < arguments.len()
                    invariant
                        i <= arguments.len(),
                        args == arguments@,
                        frames == old(self).frames(),
                        p0 == old(self).printed(),
                        eval_args(frames, args).0 is Err ==> eval_spec(frames, *expr)
                            == (Err::<Val, Fault>(eval_args(frames, args).0->Err_0), eval_args(frames, args).1),
                        self.wf(),
                        self.frames() == frames,
                        forall|j: int| 0 <= j < arguments.len() ==> decreases_to!(*expr => arguments[j]),
                        eval_args(frames, args.subrange(0, i as int)).0
                            == Ok::<Seq<Val>, Fault>(eval_args_v@.map_values(|a: Value| a@)),
                        self.printed() == p0 + eval_args(frames, args.subrange(0, i as int)).1,
                    decreases arguments.len() - i,
                {
                    let ghost before = self.printed();
                    let r = self.eval_expr(&arguments[i]);
                    proof {
                        let t = args.subrange(0, i + 1);
                        assert(t.subrange(0, t.len() - 1) =~= args.subrange(0, i as int));
                        assert(t[t.len() - 1] == arguments@[i as int]);
                    }
                    match r {
                        Ok(v) => {
                            let ghost vv = v@;
                            let ghost prev = eval_args_v@;
                            eval_args_v.push(v);
                            proof {
                                assert(eval_args_v@.map_values(|a: Value| a@)
                                    =~= prev.map_values(|a: Value| a@).push(vv));
                                assert(self.printed() =~= p0 + eval_args(frames, args.subrange(0, i + 1)).1);
                            }
                        },
                        Err(e) => {
                            proof {
                                lemma_args_failure_stays(frames, args, i + 1, args.len() as int);
                                assert(args.subrange(0, args.len() as int) =~= args);
                                assert(self.printed() =~= p0 + eval_args(frames, args).1);
                            }
                            return Err(e);
                        },
                    }
                    i = i + 1;
                }
                proof {
                    assert(args.subrange(0, i as int) =~= args);
                }
                let r = self.call(name, eval_args_v, *line, *column);
                proof {
                    assert(self.printed() =~= p0 + eval_spec(frames, *expr).1);
                }
                r
            },
        }
    }

    fn bind(&mut self, name: &Token, v: Value)
        requires
            old(self).wf(),
        ensures
            final(self).wf(),
            final(self).printed() == old(self).printed(),
            final(self).frames() == bind_spec(old(self).frames(), *name, v@),
    {
        if let Token::Identifier(n) = name {
            self.env.define(n.clone(), v);
        }
    }

    /// Runs one statement.
    pub fn eval_stmt(&mut self, stmt: &Stmt) -> (r: Result<Value, EvalError>)
        requires
            old(self).wf(),
        ensures
            final(self).wf(),
            outcome_view(r) == stmt_spec(old(self).frames(), *stmt).0.0,
            final(self).printed() == old(self).printed() + stmt_spec(old(self).frames(), *stmt).0.1,
            final(self).frames() == stmt_spec(old(self).frames(), *stmt).1,
    {
        let ghost p0 = self.printed();
        proof {
            assert(p0 + Seq::<Seq<char>>::empty() =~= p0);
        }
        match stmt {
            Stmt::Let { name, initializer } => {
                let val = self.eval_expr(initializer)?;
                self.bind(name, val);
                Ok(Value::Nil)
            },
            Stmt::Print { expression } => {
                let val = self.eval_expr(expression)?;
                let line = val.to_display();
                self.emit(line);
                proof {
                    assert(self.printed() =~= p0 + stmt_spec(old(self).frames(), *stmt).0.1);
                }
                Ok(Value::Nil)
            },
            Stmt::Panic => Err(EvalError::Panicked),
            Stmt::Expression { expression } => self.eval_expr(expression),
            Stmt::Assign { name, value } => {
                let val = self.eval_expr(value)?;
                self.bind(name, val);
                Ok(Value::Nil)
            },
        }
    }

    /// Runs statements in order and yields the last one's value; the first
    /// failure stops the run.
    pub fn evaluate(&mut self, statements: &Vec<Stmt>) -> (r: Result<Value, EvalError>)
        requires
            old(self).wf(),
        ensures
            final(self).wf(),
            outcome_view(r) == program_spec(old(self).frames(), statements@).0,
            final(self).printed() == old(self).printed() + program_spec(old(self).frames(), statements@).1,
            final(self).frames() == program_spec(old(self).frames(), statements@).2,
    {
        let ghost f0 = self.frames();
        let ghost p0 = self.printed();
        let ghost stmts = statements@;
        let mut last_value = Value::Nil;
        let mut i: usize = 0;
        proof {
            assert(stmts.take(0) =~= Seq::<Stmt>::empty());
            assert(p0 + Seq::<Seq<char>>::empty() =~= p0);
        }
        while i < statements.len()
            invariant
                i <= statements.len(),
                stmts == statements@,
                f0 == old(self).frames(),
                p0 == old(self).printed(),
                self.wf(),
                program_spec(f0, stmts.take(i as int)).0 == Ok::<Val, Fault>(last_value@),
                self.printed() == p0 + program_spec(f0, stmts.take(i as int)).1,
                self.frames() == program_spec(f0, stmts.take(i as int)).2,
            decreases statements.len() - i,
        {
            let r = self.eval_stmt(&statements[i]);
            proof {
                assert(stmts.take(i + 1).drop_last() =~= stmts.take(i as int));
                assert(self.printed() =~= p0 + program_spec(f0, stmts.take(i + 1)).1);
            }
            match r {
                Ok(v) => {
                    last_value = v;
                },
                Err(e) => {
                    proof {
                        lemma_program_failure_stays(f0, stmts, i + 1, stmts.len() as int);
                        assert(stmts.take(stmts.len() as int) =~= stmts);
                    }
                    return Err(e);
                },
            }
            i = i + 1;
        }
        proof {
            assert(stmts.take(i as int) =~= stmts);
        }
        Ok(last_value)
    }
}

} // verus!
