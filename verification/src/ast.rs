//! The abstract syntax tree consumed by the token stream's downstream
//! parser: a closed tagged union over statement and expression
//! variants, matched exhaustively. Pure data with constructors.

use crate::token::TokenKind;
use vstd::prelude::*;

verus! {

/// A program: its statements in order.
pub struct AST {
    pub statements: Vec<ASTStatement>,
}

impl AST {
    pub fn new() -> (r: AST)
        ensures
            r.statements@ == Seq::<ASTStatement>::empty(),
    {
        AST { statements: Vec::new() }
    }

    pub fn add_statement(&mut self, statement: ASTStatement)
        ensures
            final(self).statements@ == old(self).statements@.push(statement),
    {
        self.statements.push(statement);
    }
}

/// One statement.
pub struct ASTStatement {
    pub kind: ASTStatementKind,
}

impl ASTStatement {
    pub fn new(kind: ASTStatementKind) -> (r: ASTStatement)
        ensures
            r.kind == kind,
    {
        ASTStatement { kind }
    }

    /// An expression statement.
    pub fn expression(expression: ASTExpression) -> (r: ASTStatement)
        ensures
            r.kind == ASTStatementKind::Expression(expression),
    {
        ASTStatement::new(ASTStatementKind::Expression(expression))
    }
}

pub enum ASTStatementKind {
    Expression(ASTExpression),
}

/// One expression.
pub struct ASTExpression {
    pub kind: ASTExpressionKind,
}

impl ASTExpression {
    pub fn new(kind: ASTExpressionKind) -> (r: ASTExpression)
        ensures
            r.kind == kind,
    {
        ASTExpression { kind }
    }

    /// An integer literal expression.
    pub fn number(n: i64) -> (r: ASTExpression)
        ensures
            r.kind matches ASTExpressionKind::Number(ne) && ne.number == n,
    {
        ASTExpression::new(ASTExpressionKind::Number(ASTNumberExpression { number: n }))
    }

    /// A binary operation over two sub-expressions.
    pub fn binary(left: ASTExpression, operator: TokenKind, right: ASTExpression) -> (r:
        ASTExpression)
        ensures
            r.kind matches ASTExpressionKind::Binary(b) && *b.left == left && b.operator
                == operator && *b.right == right,
    {
        ASTExpression::new(
            ASTExpressionKind::Binary(
                ASTBinaryExpression { left: Box::new(left), operator, right: Box::new(right) },
            ),
        )
    }

    /// A parenthesized sub-expression.
    pub fn group(expr: ASTExpression) -> (r: ASTExpression)
        ensures
            r.kind matches ASTExpressionKind::Group(g) && *g.expression == expr,
    {
        ASTExpression::new(ASTExpressionKind::Group(ASTGroupExpression { expression: Box::new(expr) }))
    }
}

pub enum ASTExpressionKind {
    Number(ASTNumberExpression),
    Binary(ASTBinaryExpression),
    Group(ASTGroupExpression),
}

pub struct ASTNumberExpression {
    pub number: i64,
}

pub struct ASTLiteralExpression {
    pub literal: String,
}

pub struct ASTBinaryExpression {
    pub left: Box<ASTExpression>,
    pub operator: TokenKind,
    pub right: Box<ASTExpression>,
}

pub struct ASTGroupExpression {
    pub expression: Box<ASTExpression>,
}

} // verus!
