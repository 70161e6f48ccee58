//! Abstract syntax tree produced by the parser.

use vstd::prelude::*;

verus! {

/// A parsed module: an ordered sequence of statements.
///
/// The model of a module is the sequence of literal texts of its
/// statements, in order.
#[derive(Debug, Clone)]
pub struct AstModule {
    pub statements: Vec<AstStatement>,
}

/// A single statement: printing the value of an expression.
#[derive(Debug, Clone)]
pub enum AstStatement {
    Accrete(AstExpression),
}

/// An expression: the grammar has only string literals.
#[derive(Debug, Clone)]
pub enum AstExpression {
    StringLiteral(String),
}

impl View for AstExpression {
    type V = Seq<char>;

    open spec fn view(&self) -> Seq<char> {
        match self {
            AstExpression::StringLiteral(s) => s@,
        }
    }
}

impl View for AstStatement {
    type V = Seq<char>;

    open spec fn view(&self) -> Seq<char> {
        match self {
            AstStatement::Accrete(e) => e@,
        }
    }
}

impl View for AstModule {
    type V = Seq<Seq<char>>;

    open spec fn view(&self) -> Seq<Seq<char>> {
        self.statements@.map_values(|s: AstStatement| s@)
    }
}

} // verus!
