//! The syntax tree the middle end consumes.
//!
//! Floating point literals are carried as their IEEE 754 bit patterns; the
//! surrounding front end converts literal text to bits before it hands the
//! tree over.

use vstd::prelude::*;
use crate::value::TypeDef;

verus! {

/// An expression or statement of the source language.
#[derive(Debug)]
pub enum Ast {
    /// A name reference.
    Ident(String),
    /// Callee expression and arguments.
    FuncCall(Box<Ast>, Vec<Ast>),
    /// A brace block: a sequence of expressions in a child scope.
    Block(Vec<Ast>),
    /// A parse error the front end chose to hand through.
    Error,
    /// A 32-bit integer literal.
    I32(i32),
    /// A 64-bit float literal, as its IEEE 754 bit pattern.
    F64(u64),
    /// A boolean literal.
    Bool(bool),
    /// Unary negation.
    Negative(Box<Ast>),
    /// Addition.
    Add(Box<Ast>, Box<Ast>),
    /// Subtraction.
    Sub(Box<Ast>, Box<Ast>),
    /// Multiplication.
    Mul(Box<Ast>, Box<Ast>),
    /// Division.
    Div(Box<Ast>, Box<Ast>),
    /// Equality comparison.
    Eq(Box<Ast>, Box<Ast>),
    /// Greater-than comparison.
    Gt(Box<Ast>, Box<Ast>),
    /// Less-than comparison.
    Lt(Box<Ast>, Box<Ast>),
    /// Greater-or-equal comparison.
    Ge(Box<Ast>, Box<Ast>),
    /// Less-or-equal comparison.
    Le(Box<Ast>, Box<Ast>),
    /// Inequality comparison.
    Ne(Box<Ast>, Box<Ast>),
    /// Condition, then arm, else arm.
    If(Box<Ast>, Box<Ast>, Box<Ast>),
    /// Condition and body.
    While(Box<Ast>, Box<Ast>),
    /// Return the value of the expression.
    Return(Box<Ast>),
    /// `let name = e`: declare a name in the current scope.
    Declair(String, Box<Ast>),
    /// `name = e`: assign to an already declared name.
    Assign(String, Box<Ast>),
    /// An array literal.
    Array(Vec<Ast>),
    /// A function definition.
    FuncDef(FuncDef),
}

/// Whether the tree holds an assignment anywhere.  A tree without one
/// cannot rebind any name, so lowering it needs no phi parameters for
/// names and leaves every scope's assignment map alone.
pub open spec fn has_assign(ast: Ast) -> bool
    decreases ast,
{
    match ast {
        Ast::Assign(_name, e) => true,
        Ast::Ident(_name) => false,
        Ast::Error => false,
        Ast::I32(_v) => false,
        Ast::F64(_v) => false,
        Ast::Bool(_v) => false,
        Ast::Negative(a) => has_assign(*a),
        Ast::Return(a) => has_assign(*a),
        Ast::Declair(_name, a) => has_assign(*a),
        Ast::Add(a, b) => has_assign(*a) || has_assign(*b),
        Ast::Sub(a, b) => has_assign(*a) || has_assign(*b),
        Ast::Mul(a, b) => has_assign(*a) || has_assign(*b),
        Ast::Div(a, b) => has_assign(*a) || has_assign(*b),
        Ast::Eq(a, b) => has_assign(*a) || has_assign(*b),
        Ast::Ne(a, b) => has_assign(*a) || has_assign(*b),
        Ast::Lt(a, b) => has_assign(*a) || has_assign(*b),
        Ast::Le(a, b) => has_assign(*a) || has_assign(*b),
        Ast::Gt(a, b) => has_assign(*a) || has_assign(*b),
        Ast::Ge(a, b) => has_assign(*a) || has_assign(*b),
        Ast::If(c, a, b) => has_assign(*c) || has_assign(*a) || has_assign(*b),
        Ast::While(c, b) => has_assign(*c) || has_assign(*b),
        Ast::FuncCall(f, args) => has_assign(*f) || exists|i: int|
            0 <= i < args@.len() && has_assign(#[trigger] args@[i]),
        Ast::Block(items) => exists|i: int|
            0 <= i < items@.len() && has_assign(#[trigger] items@[i]),
        Ast::Array(items) => exists|i: int|
            0 <= i < items@.len() && has_assign(#[trigger] items@[i]),
        Ast::FuncDef(fd) => has_assign(*fd.body),
    }
}

/// Whether a successful lowering of the tree surely produces a value: a
/// result variable distinct from the no-value sentinel.  Identifiers and
/// array literals are left out: an identifier can be bound to the
/// sentinel of an earlier valueless declaration.
pub open spec fn def_yields(ast: Ast) -> bool
    decreases ast,
{
    match ast {
        Ast::I32(_v) => true,
        Ast::F64(_v) => true,
        Ast::Bool(_v) => true,
        Ast::Add(_a, _b) => true,
        Ast::Sub(_a, _b) => true,
        Ast::Mul(_a, _b) => true,
        Ast::Div(_a, _b) => true,
        Ast::Eq(_a, _b) => true,
        Ast::Ne(_a, _b) => true,
        Ast::Lt(_a, _b) => true,
        Ast::Le(_a, _b) => true,
        Ast::Gt(_a, _b) => true,
        Ast::Ge(_a, _b) => true,
        Ast::Negative(_a) => true,
        Ast::FuncCall(_f, _args) => true,
        Ast::Declair(_n, e) => def_yields(*e),
        Ast::Assign(_n, e) => def_yields(*e),
        Ast::If(_c, a, b) => def_yields(*a) && def_yields(*b),
        _ => false,
    }
}

/// Whether a successful lowering of the tree surely produces no value: a
/// loop, a brace block, a declaration or assignment of one, or an `if`
/// with such an arm.
pub open spec fn never_yields(ast: Ast) -> bool
    decreases ast,
{
    match ast {
        Ast::Block(_items) => true,
        Ast::While(_c, _b) => true,
        Ast::Declair(_n, e) => never_yields(*e),
        Ast::Assign(_n, e) => never_yields(*e),
        Ast::If(_c, a, b) => never_yields(*a) || never_yields(*b),
        _ => false,
    }
}

/// Whether lowering the tree can touch the binding of `name`: the tree
/// declares or assigns that name somewhere.  Lowering leaves every other
/// name's binding in the surrounding scope alone.
pub open spec fn touches_name(ast: Ast, name: Seq<char>) -> bool
    decreases ast,
{
    match ast {
        Ast::Declair(n, e) => n@ == name || touches_name(*e, name),
        Ast::Assign(n, e) => n@ == name || touches_name(*e, name),
        Ast::Negative(a) => touches_name(*a, name),
        Ast::Return(a) => touches_name(*a, name),
        Ast::Add(a, b) => touches_name(*a, name) || touches_name(*b, name),
        Ast::Sub(a, b) => touches_name(*a, name) || touches_name(*b, name),
        Ast::Mul(a, b) => touches_name(*a, name) || touches_name(*b, name),
        Ast::Div(a, b) => touches_name(*a, name) || touches_name(*b, name),
        Ast::Eq(a, b) => touches_name(*a, name) || touches_name(*b, name),
        Ast::Ne(a, b) => touches_name(*a, name) || touches_name(*b, name),
        Ast::Lt(a, b) => touches_name(*a, name) || touches_name(*b, name),
        Ast::Le(a, b) => touches_name(*a, name) || touches_name(*b, name),
        Ast::Gt(a, b) => touches_name(*a, name) || touches_name(*b, name),
        Ast::Ge(a, b) => touches_name(*a, name) || touches_name(*b, name),
        Ast::If(c, a, b) => touches_name(*c, name) || touches_name(*a, name) || touches_name(
            *b,
            name,
        ),
        Ast::While(c, b) => touches_name(*c, name) || touches_name(*b, name),
        Ast::FuncCall(f, args) => touches_name(*f, name) || exists|i: int|
            0 <= i < args@.len() && touches_name(#[trigger] args@[i], name),
        Ast::Block(items) => exists|i: int|
            0 <= i < items@.len() && touches_name(#[trigger] items@[i], name),
        Ast::Array(items) => exists|i: int|
            0 <= i < items@.len() && touches_name(#[trigger] items@[i], name),
        Ast::FuncDef(fd) => touches_name(*fd.body, name),
        Ast::Ident(_n) => false,
        Ast::Error => false,
        Ast::I32(_v) => false,
        Ast::F64(_v) => false,
        Ast::Bool(_v) => false,
    }
}

/// A function definition: name, formal parameters, return type and body.
#[derive(Debug)]
pub struct FuncDef {
    pub name: String,
    pub params: Vec<Param>,
    pub return_type: TypeDef,
    pub body: Box<Ast>,
}

/// A formal parameter: its name and type.
#[derive(Debug)]
pub struct Param {
    pub name: String,
    pub param_type: TypeDef,
}

} // verus!
