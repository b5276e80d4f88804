//! Abstract syntax of the surface language.
//!
//! The back end does not parse; an external front end produces these values.
//! The intermediate representation borrows the operator vocabulary
//! (`BinaryOperator`, `UnaryOperator`) from here.

use vstd::prelude::*;

verus! {

/// A name bound by a `let` statement or referenced in an expression.
#[derive(Debug, PartialEq)]
pub struct Identifier(pub String);

/// One statement of the surface language.
#[derive(Debug, PartialEq)]
pub enum Statement {
    Let(Identifier, Expression),
    Return(Expression),
    Ifelse(Expression, Block, Block),
    Assert(Expression),
    Expression(Expression),
}

/// A braced sequence of statements.
#[derive(Debug, PartialEq)]
pub struct Block(pub Vec<Statement>);

/// An expression tree of the surface language.
#[derive(Debug, PartialEq)]
pub enum Expression {
    Identifier(Identifier),
    Literal(Literal),
    BinaryOperation(BinaryOperator, Box<Expression>, Box<Expression>),
    UnaryOperation(UnaryOperator, Box<Expression>),
}

/// A prefix operator tag.
#[derive(Debug, Clone, Copy, PartialEq, Eq, Structural)]
pub enum UnaryOperator {
    Minus,
    Not,
}

/// An infix operator tag.
#[derive(Debug, Clone, Copy, PartialEq, Eq, Structural)]
pub enum BinaryOperator {
    Plus,
    Minus,
    Multiply,
    Divide,
    Equal,
    NotEqual,
    LessThan,
    GreaterThan,
    And,
    Or,
    Xor,
}

/// A literal of the surface language.
#[derive(Debug, PartialEq)]
pub enum Literal {
    Int(i64),
    Bool(bool),
}

/// Binding strength of an infix operator, for a Pratt-style front end.
#[derive(Debug, PartialEq, PartialOrd, Clone, Copy)]
pub enum Precedence {
    Lowest,
    Equals,
    LessGreater,
    Sum,
    Product,
    Prefix,
    Call,
}

} // verus!
