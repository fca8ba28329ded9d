use vstd::prelude::*;

use crate::ast::Expr;
use crate::text::{int_text, push_char, push_int, push_str, text_of};

verus! {

/// A three-valued boolean: true, false, or known to be indeterminate.
#[derive(Debug, Clone, Copy, PartialEq, Eq, Structural)]
pub enum SKBool {
    True,
    False,
    Partial,
}

/// The native functions that libraries can bind into an environment.
#[derive(Debug, Clone, Copy, PartialEq, Eq, Structural)]
pub enum Native {
    Sqrt,
}

/// A runtime value. Numbers and interval bounds are whole numbers.
#[derive(Debug)]
pub enum Value {
    Number(i64),
    String(String),
    Bool(SKBool),
    Interval(i64, i64),
    Unknown,
    Symbolic { expression: Box<Expr>, is_quiet: bool },
    Nil,
    NativeFn(Native),
}

/// The mathematical model of a value.
pub enum Val {
    Number(int),
    Str(Seq<char>),
    Bool(SKBool),
    Interval(int, int),
    Unknown,
    Symbolic(bool),
    Nil,
    NativeFn(Native),
}

impl View for Value {
    type V = Val;

    open spec fn view(&self) -> Val {
        match self {
            Value::Number(n) => Val::Number(*n as int),
            Value::String(s) => Val::Str(s@),
            Value::Bool(b) => Val::Bool(*b),
            Value::Interval(lo, hi) => Val::Interval(*lo as int, *hi as int),
            Value::Unknown => Val::Unknown,
            Value::Symbolic { is_quiet, .. } => Val::Symbolic(*is_quiet),
            Value::Nil => Val::Nil,
            Value::NativeFn(f) => Val::NativeFn(*f),
        }
    }
}

impl Val {
    /// Whether the identity rules may compare this value: symbolic values
    /// and native functions are never equal to anything.
    pub open spec fn comparable(self) -> bool {
        !(self is Symbolic) && !(self is NativeFn)
    }

    /// Value equality as the identity rules use it.
    pub open spec fn same_as(self, other: Val) -> bool {
        self.comparable() && self == other
    }

    /// The display text of a value.
    pub open spec fn display(self) -> Seq<char> {
        match self {
            Val::Number(n) => int_text(n),
            Val::Str(s) => s,
            Val::Bool(SKBool::True) => "true"@,
            Val::Bool(SKBool::False) => "false"@,
            Val::Bool(SKBool::Partial) => "partial"@,
            Val::Interval(lo, hi) => seq!['['] + int_text(lo) + ".."@ + int_text(hi) + seq![']'],
            Val::Unknown => "unknown"@,
            Val::Symbolic(_) => "<symbolic>"@,
            Val::Nil => "none"@,
            Val::NativeFn(_) => "<native fn>"@,
        }
    }

    /// The name of a value's variant, as `kind` reports it.
    pub open spec fn kind_name(self) -> Seq<char> {
        match self {
            Val::Number(_) => "number"@,
            Val::Str(_) => "string"@,
            Val::Bool(_) => "bool"@,
            Val::Interval(_, _) => "interval"@,
            Val::Unknown => "unknown"@,
            Val::Symbolic(_) => "symbolic"@,
            Val::Nil => "none"@,
            Val::NativeFn(_) => "native"@,
        }
    }
}

impl Value {
    /// A copy of the value with the same model.
    pub fn duplicate(&self) -> (r: Value)
        ensures
            r@ == self@,
    {
        match self {
            Value::Number(n) => Value::Number(*n),
            Value::String(s) => Value::String(s.clone()),
            Value::Bool(b) => Value::Bool(*b),
            Value::Interval(lo, hi) => Value::Interval(*lo, *hi),
            Value::Unknown => Value::Unknown,
            Value::Symbolic { expression, is_quiet } => Value::Symbolic {
                expression: Box::new(expression.duplicate()),
                is_quiet: *is_quiet,
            },
            Value::Nil => Value::Nil,
            Value::NativeFn(f) => Value::NativeFn(*f),
        }
    }

    /// Whether two values are equal for the identity rules.
    pub fn same(&self, other: &Value) -> (r: bool)
        ensures
            r == self@.same_as(other@),
    {
        match (self, other) {
            (Value::Number(a), Value::Number(b)) => *a == *b,
            (Value::String(a), Value::String(b)) => *a == *b,
            (Value::Bool(a), Value::Bool(b)) => *a == *b,
            (Value::Interval(a, b), Value::Interval(c, d)) => *a == *c && *b == *d,
            (Value::Unknown, Value::Unknown) => true,
            (Value::Nil, Value::Nil) => true,
            (Value::Number(_), _) => false,
            (Value::String(_), _) => false,
            (Value::Bool(_), _) => false,
            (Value::Interval(_, _), _) => false,
            (Value::Unknown, _) => false,
            (Value::Nil, _) => false,
            (Value::Symbolic { .. }, _) => false,
            (Value::NativeFn(_), _) => false,
        }
    }

    /// Whether this is the unknown value.
    pub fn is_unknown(&self) -> (r: bool)
        ensures
            r == (self@ is Unknown),
    {
        match self {
            Value::Unknown => true,
            _ => false,
        }
    }

    /// The display text of the value.
    pub fn to_display(&self) -> (r: String)
        ensures
            r@ == self@.display(),
    {
        let mut s = String::new();
        match self {
            Value::Number(n) => {
                push_int(&mut s, *n);
            },
            Value::String(t) => {
                push_str(&mut s, t.as_str());
            },
            Value::Bool(SKBool::True) => {
                push_str(&mut s, "true");
            },
            Value::Bool(SKBool::False) => {
                push_str(&mut s, "false");
            },
            Value::Bool(SKBool::Partial) => {
                push_str(&mut s, "partial");
            },
            Value::Interval(lo, hi) => {
                push_char(&mut s, '[');
                push_int(&mut s, *lo);
                push_str(&mut s, "..");
                push_int(&mut s, *hi);
                push_char(&mut s, ']');
            },
            Value::Unknown => {
                push_str(&mut s, "unknown");
            },
            Value::Symbolic { .. } => {
                push_str(&mut s, "<symbolic>");
            },
            Value::Nil => {
                push_str(&mut s, "none");
            },
            Value::NativeFn(_) => {
                push_str(&mut s, "<native fn>");
            },
        }
        proof {
            assert(s@ =~= self@.display());
        }
        s
    }

    /// The name of the value's variant.
    pub fn kind_name(&self) -> (r: String)
        ensures
            r@ == self@.kind_name(),
    {
        match self {
            Value::Number(_) => text_of("number"),
            Value::String(_) => text_of("string"),
            Value::Bool(_) => text_of("bool"),
            Value::Interval(_, _) => text_of("interval"),
            Value::Unknown => text_of("unknown"),
            Value::Symbolic { .. } => text_of("symbolic"),
            Value::Nil => text_of("none"),
            Value::NativeFn(_) => text_of("native"),
        }
    }
}

} // verus!
