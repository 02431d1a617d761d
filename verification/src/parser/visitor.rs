//! The interface between the tree and its consumers.
//!
//! A consumer is handed the top-level statements of a program in order and
//! is then told that the program has ended. What a consumer makes of a
//! statement is its own affair: it says so in terms of a model of its
//! state, and `Ast::visit` promises the model after the whole program.

use crate::parser::{ASTStatement, Ast, StatementView};
use vstd::prelude::*;

verus! {

/// A consumer of the tree.
pub trait ASTVisitor<'a>: Sized {
    /// The mathematical model of the consumer's state.
    type Model;

    /// The model of the consumer's state.
    spec fn model(&self) -> Self::Model;

    /// The consumer can take a statement.
    spec fn ready(&self) -> bool;

    /// The model after a statement is taken.
    spec fn after_statement(model: Self::Model, statement: StatementView) -> Self::Model;

    /// The model after the program has ended.
    spec fn after_program(model: Self::Model) -> Self::Model;

    /// Takes a statement.
    fn visit_statement(&mut self, statement: &'a ASTStatement)
        requires
            old(self).ready(),
        ensures
            final(self).ready(),
            final(self).model() == Self::after_statement(old(self).model(), statement@),
    ;

    /// Takes note that the program has ended.
    fn finalize(&mut self)
        requires
            old(self).ready(),
        ensures
            final(self).model() == Self::after_program(old(self).model()),
    ;
}

/// The model after the first `n` statements of a program are taken.
pub open spec fn after_statements<'a, V: ASTVisitor<'a>>(
    model: V::Model,
    program: Seq<StatementView>,
    n: int,
) -> V::Model
    decreases n,
{
    if n <= 0 {
        model
    } else {
        V::after_statement(after_statements::<V>(model, program, n - 1), program[n - 1])
    }
}

impl Ast {
    /// Hands the statements of the program to a consumer, in order, and
    /// tells it that the program has ended.
    pub fn visit<'a, V: ASTVisitor<'a>>(&'a self, visitor: &mut V)
        requires
            old(visitor).ready(),
        ensures
            final(visitor).model() == V::after_program(
                after_statements::<V>(old(visitor).model(), self@, self@.len() as int),
            ),
    {
        let mut i: usize = 0;
        while i < self.statements.len()
            invariant
                i <= self.statements@.len(),
                visitor.ready(),
                visitor.model() == after_statements::<V>(old(visitor).model(), self@, i as int),
            decreases self.statements@.len() - i,
        {
            visitor.visit_statement(&self.statements[i]);
            i = i + 1;
        }
        visitor.finalize();
    }
}

} // verus!
