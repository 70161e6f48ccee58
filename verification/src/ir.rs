//! Intermediate representation handed to the bytecode compiler.

use vstd::prelude::*;

verus! {

/// An IR module: an ordered sequence of statements.
///
/// The model of a module is the sequence of literal texts of its
/// statements, in order.
#[derive(Debug, Clone)]
pub struct IrModule {
    pub statements: Vec<IrStatement>,
}

/// A single IR statement: printing the value of an expression.
#[derive(Debug, Clone)]
pub enum IrStatement {
    Accrete(IrExpression),
}

/// An IR expression: only string literals exist.
#[derive(Debug, Clone)]
pub enum IrExpression {
    StringLiteral(String),
}

impl View for IrExpression {
    type V = Seq<char>;

    open spec fn view(&self) -> Seq<char> {
        match self {
            IrExpression::StringLiteral(s) => s@,
        }
    }
}

impl View for IrStatement {
    type V = Seq<char>;

    open spec fn view(&self) -> Seq<char> {
        match self {
            IrStatement::Accrete(e) => e@,
        }
    }
}

impl View for IrModule {
    type V = Seq<Seq<char>>;

    open spec fn view(&self) -> Seq<Seq<char>> {
        self.statements@.map_values(|s: IrStatement| s@)
    }
}

} // verus!
