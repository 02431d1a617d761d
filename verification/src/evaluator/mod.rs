//! The two consumers of the syntax tree: the transpiler and the interpreter.

use crate::evaluator::cpptranspiler::ASTCppTranspiler;
use crate::evaluator::emission::{nothing, program, statements, transpiled};
use crate::evaluator::interpreter::{ASTInterpreter, InterpreterError};
use crate::evaluator::semantics::{interpreted, InterpreterErrorView};
use crate::evaluator::to_cpp::{StdTable, TypeTable};
use crate::parser::visitor::ASTVisitor;
use crate::parser::Ast;
use vstd::prelude::*;

pub mod cpptranspiler;
pub mod emission;
pub mod interpreter;
pub mod semantics;
pub mod to_cpp;

verus! {

/// Transpiles a program to C++.
///
/// The result is the text of the program's statements, one behind the other,
/// behind one `#include` line for each header that the statements need, in
/// the order in which the headers first come up.
pub fn cpptranspile(ast: &Ast, types: &TypeTable, std_names: &StdTable) -> (res: String)
    ensures
        res@ == transpiled(ast@, types@, std_names@),
{
    let mut eval = ASTCppTranspiler::new(types, std_names);
    let ghost start = eval.model();
    ast.visit(&mut eval);
    proof {
        cpptranspiler::lemma_visited_program(start, ast@, ast@.len() as int);
        let body = program(ast@, types@, std_names@);
        assert(start.emitted.and(body).text =~= body.text);
        assert(start.emitted.and(body).headers =~= body.headers);
    }
    eval.take_result()
}

/// Transpiles a program to C++ without the prelude: the text of the
/// program's statements alone.
pub fn evaluate(ast: &Ast, types: &TypeTable, std_names: &StdTable) -> (res: String)
    ensures
        res@ == program(ast@, types@, std_names@).text,
{
    let mut eval = ASTCppTranspiler::new(types, std_names);
    let ghost start = eval;
    let mut i: usize = 0;
    assert(eval.text() =~= start.text() + nothing().text);
    assert(eval.headers() =~= start.headers() + nothing().headers);
    while i < ast.statements.len()
        invariant
            i <= ast.statements@.len(),
            start.text() == Seq::<char>::empty(),
            start.types() == types@,
            start.std_names() == std_names@,
            eval.emitted(start, statements(ast@, i as int, types@, std_names@)),
        decreases ast.statements@.len() - i,
    {
        eval.visit_statement(&ast.statements[i]);
        i = i + 1;
        let ghost after = statements(ast@, i as int, types@, std_names@);
        assert(eval.text() =~= start.text() + after.text);
        assert(eval.headers() =~= start.headers() + after.headers);
    }
    assert(eval.text() =~= program(ast@, types@, std_names@).text);
    eval.take_result()
}

/// Interprets a program.
///
/// The statements are evaluated in order from an empty state, with calls
/// nesting at most `MAX_CALL_DEPTH` deep. The result is the value of the
/// expression evaluated last, as text, or the first error. Lines that the
/// program prints are not returned; an `ASTInterpreter` that is run by hand
/// keeps them.
pub fn interpret(ast: &Ast) -> (res: Result<String, InterpreterError>)
    ensures
        match res {
            Ok(text) => interpreted(ast@) == Ok::<Seq<char>, InterpreterErrorView>(text@),
            Err(error) => interpreted(ast@) == Err::<Seq<char>, InterpreterErrorView>(error@),
        },
{
    let mut eval = ASTInterpreter::new();
    ast.visit(&mut eval);
    proof {
        interpreter::lemma_visited_program(
            semantics::initial(),
            semantics::MAX_CALL_DEPTH as nat,
            ast@,
            ast@.len() as int,
        );
    }
    match eval.error {
        Some(error) => Err(error),
        None => Ok(eval.result()),
    }
}

} // verus!
