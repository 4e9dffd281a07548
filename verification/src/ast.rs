//! The abstract syntax of the dice language: one statement holding one
//! dice expression `NdM`.

use vstd::prelude::*;
use crate::errors::Span;

verus! {

#[derive(Debug, Clone, Copy, PartialEq)]
pub struct Program {
    pub statement: Option<Statement>,
}

impl Program {
    pub fn new() -> (r: Program)
        ensures
            r.statement is None,
    {
        Program { statement: None }
    }
}

impl Default for Program {
    fn default() -> (r: Program)
        ensures
            r.statement is None,
    {
        Program::new()
    }
}

#[derive(Debug, Clone, Copy, PartialEq)]
pub struct Statement {
    pub kind: StatementKind,
    pub span: Span,
}

#[derive(Debug, Clone, Copy, PartialEq)]
pub enum StatementKind {
    Expression { expr: Expression },
}

#[derive(Debug, Clone, Copy, PartialEq)]
pub struct Expression {
    pub kind: ExpressionKind,
    pub span: Span,
}

#[derive(Debug, Clone, Copy, PartialEq)]
pub enum ExpressionKind {
    Dice { count: u32, faces: u32 },
}

#[derive(Debug, Clone, Copy, PartialEq)]
pub enum BinaryOperator {
    Dice,
}

impl Statement {
    pub fn expr_stmt(expr: Expression, span: Span) -> (r: Statement)
        ensures
            r == (Statement { kind: StatementKind::Expression { expr }, span }),
    {
        Statement { kind: StatementKind::Expression { expr }, span }
    }
}

impl Expression {
    pub fn dice(count: u32, faces: u32, span: Span) -> (r: Expression)
        ensures
            r == (Expression { kind: ExpressionKind::Dice { count, faces }, span }),
    {
        Expression { kind: ExpressionKind::Dice { count, faces }, span }
    }
}

} // verus!
