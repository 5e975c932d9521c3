//! The abstract syntax tree of the source language: pure data, produced by
//! the parser and consumed by the compiler.

use vstd::prelude::*;

verus! {

/// An expression. Every expression evaluates to exactly one value on the
/// virtual machine's stack.
///
/// `FunctionCall` is a zero-argument call by name; its target is resolved to
/// an absolute offset only at link time.
#[derive(Debug)]
pub enum Expression {
    Number(i64),
    Ident(String),
    Add(Box<Expression>, Box<Expression>),
    Or(Box<Expression>, Box<Expression>),
    And(Box<Expression>, Box<Expression>),
    Not(Box<Expression>),
    Subtract(Box<Expression>, Box<Expression>),
    Divide(Box<Expression>, Box<Expression>),
    Multiply(Box<Expression>, Box<Expression>),
    Modulo(Box<Expression>, Box<Expression>),
    IsGreaterThan(Box<Expression>, Box<Expression>),
    IsLessThan(Box<Expression>, Box<Expression>),
    FunctionCall(String),
    IsEqual(Box<Expression>, Box<Expression>),
}

/// A statement. `If` has no else branch. The bodies of `If` and `While`
/// share the enclosing scope's variable table; a `FunctionDefinition` body
/// is compiled in a fresh, isolated scope.
#[derive(Debug)]
pub enum Statement {
    Assignment(String, Expression),
    Expression(Expression),
    If(Expression, Vec<Statement>),
    While(Expression, Vec<Statement>),
    Echo(Expression),
    FunctionDefinition(String, Vec<Statement>),
}

} // verus!
