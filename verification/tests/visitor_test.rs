use rust::evaluator::cpptranspiler::ASTCppTranspiler;
use rust::evaluator::interpreter::{ASTInterpreter, InterpreterError};
use rust::evaluator::to_cpp::{init_std_names, init_types};
use rust::parser;
use rust::parser::visitor::ASTVisitor;
use rust::parser::{ASTStatement, ASTStatementKind, StatementView};
use rust::tokenizer;

struct Kinds {
    seen: Vec<&'static str>,
    ended: bool,
}

impl<'a> ASTVisitor<'a> for Kinds {
    type Model = ();

    fn model(&self) {}

    fn ready(&self) -> bool {
        true
    }

    fn after_statement(_: (), _: StatementView) {}

    fn after_program(_: ()) {}

    fn visit_statement(&mut self, statement: &'a ASTStatement) {
        self.seen.push(match &statement.kind {
            ASTStatementKind::Let(_) => "let",
            ASTStatementKind::Return(_) => "return",
            _ => "other",
        });
    }

    fn finalize(&mut self) {
        self.ended = true;
    }
}

#[test]
fn statements_are_handed_over_in_order() {
    let ast = parser::parse(tokenizer::tokenize(b"let a = 1 a return a").unwrap()).unwrap();
    let mut kinds = Kinds { seen: Vec::new(), ended: false };
    ast.visit(&mut kinds);
    assert_eq!(kinds.seen, vec!["let", "other", "return"]);
    assert!(kinds.ended);
}

#[test]
fn transpiler_is_a_visitor() {
    let types = init_types("types.csv", b"a;b;c\ni32;int32_t;cstdint\n").unwrap();
    let std_names = init_std_names("functions.csv", b"a;b\n").unwrap();
    let ast = parser::parse(tokenizer::tokenize(b"let a: i32 = 1").unwrap()).unwrap();
    let mut transpiler = ASTCppTranspiler::new(&types, &std_names);
    ast.visit(&mut transpiler);
    assert_eq!(transpiler.result, "#include <cstdint>\nconst int32_t a = 1;");
}

#[test]
fn interpreter_is_a_visitor() {
    let ast = parser::parse(tokenizer::tokenize(b"let a = 2 a * 21").unwrap()).unwrap();
    let mut interpreter = ASTInterpreter::new();
    ast.visit(&mut interpreter);
    assert!(interpreter.error.is_none());
    assert_eq!(interpreter.result(), "42");

    let ast = parser::parse(tokenizer::tokenize(b"let a = 2 b a = 3").unwrap()).unwrap();
    let mut interpreter = ASTInterpreter::new();
    ast.visit(&mut interpreter);
    assert!(matches!(interpreter.error, Some(InterpreterError::UndefinedVariable(_))));
    assert_eq!(interpreter.get(&String::from("a")).unwrap().to_string(), "2");
}
