//! Lowering from the abstract syntax tree to the intermediate
//! representation.

use vstd::prelude::*;

use crate::ast::{AstExpression, AstModule, AstStatement};
use crate::ir::{IrExpression, IrModule, IrStatement};

verus! {

/// Lower an expression; the literal text is preserved.
fn lower_expression(expr: AstExpression) -> (r: IrExpression)
    ensures
        r@ == expr@,
{
    match expr {
        AstExpression::StringLiteral(s) => IrExpression::StringLiteral(s),
    }
}

/// Lower a statement; the literal text is preserved.
fn lower_statement(stmt: AstStatement) -> (r: IrStatement)
    ensures
        r@ == stmt@,
{
    match stmt {
        AstStatement::Accrete(expr) => IrStatement::Accrete(lower_expression(expr)),
    }
}

/// Lower a whole module: the IR carries the same statements, in the
/// same order, with the same literal texts.
pub fn lower_module(ast: AstModule) -> (r: IrModule)
    ensures
        r@ == ast@,
{
    let ghost m = ast@;
    let mut statements: Vec<IrStatement> = Vec::new();
    let mut rest = ast.statements;
    while rest.len() > 0
        invariant
            statements@.map_values(|s: IrStatement| s@) + rest@.map_values(
                |s: AstStatement| s@,
            ) =~= m,
        decreases rest@.len(),
    {
        let stmt = rest.remove(0);
        statements.push(lower_statement(stmt));
    }
    let r = IrModule { statements };
    proof {
        assert(r@ =~= m);
    }
    r
}

} // verus!
