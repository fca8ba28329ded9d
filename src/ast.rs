use vstd::prelude::*;
use vstd::std_specs::vec::axiom_vec_index_decreases;

use crate::lexer::Token;

verus! {

broadcast use axiom_vec_index_decreases;

/// An expression of the syntax tree.
#[derive(Debug)]
pub enum Expr {
    Literal { value: Token },
    Variable { name: Token },
    Interval { min: Box<Expr>, max: Box<Expr> },
    Binary { left: Box<Expr>, operator: Token, right: Box<Expr> },
    Unary { operator: Token, right: Box<Expr> },
    Grouping { expression: Box<Expr> },
    /// A call; `line` and `column` give the call site.
    Call { callee: Box<Expr>, arguments: Vec<Expr>, line: usize, column: usize },
}

/// A statement of the syntax tree.
#[derive(Debug)]
pub enum Stmt {
    Let { name: Token, initializer: Expr },
    Print { expression: Expr },
    Panic,
    Expression { expression: Expr },
    Assign { name: Token, value: Expr },
}

/// Whether two trees have the same shape, tokens and call sites.
pub open spec fn same_tree(a: Expr, b: Expr) -> bool
    decreases a,
{
    match a {
        Expr::Literal { value } => b == Expr::Literal { value },
        Expr::Variable { name } => b == Expr::Variable { name },
        Expr::Interval { min, max } => match b {
            Expr::Interval { min: min2, max: max2 } => same_tree(*min, *min2) && same_tree(*max, *max2),
            _ => false,
        },
        Expr::Binary { left, operator, right } => match b {
            Expr::Binary { left: left2, operator: operator2, right: right2 } =>
                operator == operator2 && same_tree(*left, *left2) && same_tree(*right, *right2),
            _ => false,
        },
        Expr::Unary { operator, right } => match b {
            Expr::Unary { operator: operator2, right: right2 } => operator == operator2 && same_tree(*right, *right2),
            _ => false,
        },
        Expr::Grouping { expression } => match b {
            Expr::Grouping { expression: expression2 } => same_tree(*expression, *expression2),
            _ => false,
        },
        Expr::Call { callee, arguments, line, column } => match b {
            Expr::Call { callee: callee2, arguments: arguments2, line: line2, column: column2 } => {
                &&& line == line2
                &&& column == column2
                &&& same_tree(*callee, *callee2)
                &&& arguments.len() == arguments2.len()
                &&& forall|i: int| 0 <= i < arguments.len() ==> same_tree(#[trigger] arguments[i], arguments2[i])
            },
            _ => false,
        },
    }
}

impl Expr {
    /// A deep copy of the expression tree.
    pub fn duplicate(&self) -> (r: Expr)
        ensures
            same_tree(*self, r),
        decreases self,
    {
        match self {
            Expr::Literal { value } => Expr::Literal { value: value.duplicate() },
            Expr::Variable { name } => Expr::Variable { name: name.duplicate() },
            Expr::Interval { min, max } => Expr::Interval {
                min: Box::new(min.duplicate()),
                max: Box::new(max.duplicate()),
            },
            Expr::Binary { left, operator, right } => Expr::Binary {
                left: Box::new(left.duplicate()),
                operator: operator.duplicate(),
                right: Box::new(right.duplicate()),
            },
            Expr::Unary { operator, right } => Expr::Unary {
                operator: operator.duplicate(),
                right: Box::new(right.duplicate()),
            },
            Expr::Grouping { expression } => Expr::Grouping {
                expression: Box::new(expression.duplicate()),
            },
            Expr::Call { callee, arguments, line, column } => {
                let mut copies: Vec<Expr> = Vec::new();
                let mut i: usize = 0;
                proof {
                    assert forall|j: int| 0 <= j < arguments.len() implies
                        decreases_to!(*self => arguments[j]) by {
                        assert(decreases_to!(*arguments => arguments[j]));
                    }
                }
                while i < arguments.len()
                    invariant
                        forall|j: int| 0 <= j < arguments.len() ==> decreases_to!(*self => arguments[j]),
                        i <= arguments.len(),
                        copies.len() == i,
                        forall|j: int| 0 <= j < i ==> same_tree(#[trigger] arguments[j], copies[j]),
                    decreases arguments.len() - i,
                {
                    copies.push(arguments[i].duplicate());
                    i = i + 1;
                }
                Expr::Call { callee: Box::new(callee.duplicate()), arguments: copies, line: *line, column: *column }
            },
        }
    }
}

} // verus!
