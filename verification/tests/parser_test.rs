use rust::parser;
use rust::parser::{
    ASTBinaryOperatorKind, ASTExpression, ASTExpressionKind, ASTStatementKind,
    ASTUnaryOperatorKind, Ast, ParseError,
};
use rust::tokenizer;
use rust::tokenizer::Token;

fn is_parsable(input: &str) -> bool {
    match tokenizer::tokenize(input.as_bytes()) {
        Ok(tokens) => match parser::parse(tokens) {
            Ok(_) => return true,
            Err(_) => return false,
        },
        Err(error) => {
            println!("{:?}", error);
            false
        }
    }
}

fn tree(input: &str) -> Ast {
    parser::parse(tokenizer::tokenize(input.as_bytes()).unwrap()).unwrap()
}

fn failure(input: &str) -> ParseError {
    parser::parse(tokenizer::tokenize(input.as_bytes()).unwrap()).unwrap_err()
}

/// The expression written with every operation in brackets.
fn shape(e: &ASTExpression) -> String {
    match &e.kind {
        ASTExpressionKind::Number(n) => n.num.lexeme.clone(),
        ASTExpressionKind::String(s) => s.token.lexeme.clone(),
        ASTExpressionKind::Variable(v) => v.identifier.lexeme.clone(),
        ASTExpressionKind::Binary(b) => {
            format!("({} {} {})", shape(&b.left), b.operator.token.lexeme, shape(&b.right))
        }
        ASTExpressionKind::Unary(u) => format!("({}{})", u.operator.token.lexeme, shape(&u.operand)),
        ASTExpressionKind::Parenthesized(p) => format!("[{}]", shape(&p.expression)),
        ASTExpressionKind::Assignment(a) => {
            format!("({} = {})", a.identifier.lexeme, shape(&a.expression))
        }
        ASTExpressionKind::ArrayAssignment(a) => {
            format!("({} := {})", shape(&a.index_expression), shape(&a.expression))
        }
        ASTExpressionKind::Range(r) => format!("({} .. {})", shape(&r.start), shape(&r.end)),
        ASTExpressionKind::ArrayIndex(i) => format!("{}[{}]", shape(&i.array), shape(&i.index)),
        ASTExpressionKind::Array(a) => {
            format!("[{}]", a.elements.iter().map(shape).collect::<Vec<String>>().join(", "))
        }
        ASTExpressionKind::Call(c) => format!(
            "{}({})",
            c.identifier.lexeme,
            c.arguments.iter().map(shape).collect::<Vec<String>>().join(", ")
        ),
        ASTExpressionKind::StdCall(c) => format!(
            "std::{}({})",
            c.identifier.lexeme,
            c.arguments.iter().map(shape).collect::<Vec<String>>().join(", ")
        ),
        ASTExpressionKind::Boolean(b) => format!("{}", b.value),
        ASTExpressionKind::TypeAnnotation(t) => format!(
            "{}<{}>",
            t.base.lexeme,
            t.generics.iter().map(|g| g.lexeme.clone()).collect::<Vec<String>>().join(", ")
        ),
    }
}

fn expression_shape(input: &str) -> String {
    let ast = tree(input);
    assert_eq!(ast.statements.len(), 1);
    match &ast.statements[0].kind {
        ASTStatementKind::Expression(e) => shape(e),
        other => panic!("{:?}", other),
    }
}

#[test]
fn parser_test_assignment() {
    assert!(is_parsable(
        r#"
let i: u32 = u
let a: UserDefined = 11+(22 + -10 / (10 * (50))*2)"#
    ));
    assert!(is_parsable(
        r#"
let i = 10"#
    ));
    assert!(is_parsable(
        r#"
	let mut i = 10"#
    ));
}

#[test]
fn parser_test_functions() {
    assert!(is_parsable(
        r#"
    fn main(): u32 {
        0
    }
"#
    ));

    assert!(is_parsable(
        r#"
    fn func(i: i32): u32 {
        0
    }
"#
    ));
}

#[test]
fn parser_test_for_() {
    assert!(is_parsable(
        r#"
    for i in array {
        i
    }
"#
    ));

    assert!(is_parsable(
        r#"
        for i in 0..9 {
            i
        }
    "#
    ));
}

#[test]
fn parser_test_if_() {
    assert!(is_parsable(
        r#"
    if i == 10 {
        20
    }
"#
    ));

    assert!(is_parsable(
        r#"
    if i == 12 {
        20
    } else {
        i == 10
    }
"#
    ));
}

#[test]
fn parser_test_array() {
    assert!(is_parsable(
        r#"
    a[i] = 1
"#
    ));

    assert!(is_parsable(
        r#"
    a = [1*(10-2),2,3]
    let i = 1
    return a[i]
"#
    ));
}

#[test]
fn multiplication_binds_tighter_than_addition() {
    assert_eq!(expression_shape("a + b * c"), "(a + (b * c))");
    assert_eq!(expression_shape("a * b + c"), "((a * b) + c)");
    match &tree("a + b * c").statements[0].kind {
        ASTStatementKind::Expression(e) => match &e.kind {
            ASTExpressionKind::Binary(sum) => {
                assert_eq!(sum.operator.kind, ASTBinaryOperatorKind::Addition);
                assert!(matches!(sum.left.kind, ASTExpressionKind::Variable(_)));
                match &sum.right.kind {
                    ASTExpressionKind::Binary(product) => {
                        assert_eq!(product.operator.kind, ASTBinaryOperatorKind::Star);
                    }
                    other => panic!("{:?}", other),
                }
            }
            other => panic!("{:?}", other),
        },
        other => panic!("{:?}", other),
    }
}

#[test]
fn operators_of_one_precedence_group_to_the_left() {
    assert_eq!(expression_shape("a - b - c"), "((a - b) - c)");
    assert_eq!(expression_shape("a / b * c / d"), "(((a / b) * c) / d)");
    assert_eq!(expression_shape("a - b + c"), "((a - b) + c)");
}

#[test]
fn precedence_table() {
    assert_eq!(expression_shape("a | b ^ c & d + e * f"), "(a | (b ^ (c & (d + (e * f)))))");
    assert_eq!(expression_shape("a * b + c & d ^ e | f"), "(((((a * b) + c) & d) ^ e) | f)");
    // relational operators bind tighter than arithmetic
    assert_eq!(expression_shape("a + b < c"), "(a + (b < c))");
    assert_eq!(expression_shape("a < b + c"), "((a < b) + c)");
    assert_eq!(expression_shape("a < b == c"), "(a < (b == c))");
    assert_eq!(expression_shape("a != b > c"), "((a != b) > c)");
}

#[test]
fn unary_operators() {
    assert_eq!(expression_shape("-a * b"), "((-a) * b)");
    assert_eq!(expression_shape("- - a"), "(-(-a))");
    assert_eq!(expression_shape("~a + -1"), "((~a) + (-1))");
    match &tree("~a").statements[0].kind {
        ASTStatementKind::Expression(e) => match &e.kind {
            ASTExpressionKind::Unary(u) => assert_eq!(u.operator.kind, ASTUnaryOperatorKind::BwNot),
            other => panic!("{:?}", other),
        },
        other => panic!("{:?}", other),
    }
}

#[test]
fn range_at_the_top_of_an_expression() {
    match &tree("let x = 0..n").statements[0].kind {
        ASTStatementKind::Let(l) => {
            assert!(!l.is_mut);
            assert_eq!(shape(&l.initializer), "(0 .. n)");
        }
        other => panic!("{:?}", other),
    }
    match &tree("for i in 0..n { i }").statements[0].kind {
        ASTStatementKind::For(f) => {
            assert_eq!(f.identifier.lexeme, "i");
            assert_eq!(shape(&f.iterable), "(0 .. n)");
            assert!(matches!(f.body.kind, ASTStatementKind::Block(_)));
        }
        other => panic!("{:?}", other),
    }
    assert_eq!(expression_shape("(l * 3)..(10 - 3)"), "([(l * 3)] .. [(10 - 3)])");
    assert_eq!(expression_shape("0..n-1"), "(0 .. (n - 1))");
}

#[test]
fn assignments_and_indexing() {
    assert_eq!(expression_shape("a = b + 1"), "(a = (b + 1))");
    assert_eq!(expression_shape("a[i] = i - 10"), "(a[i] := (i - 10))");
    assert_eq!(expression_shape("a[i]"), "a[i]");
    assert_eq!(expression_shape("a[j + 1] * 2 + b"), "((a[(j + 1)] * 2) + b)");
    assert_eq!(expression_shape("b + a[j]"), "(b + a[j])");
    assert_eq!(expression_shape("[1*(10-2),2,3]"), "[(1 * [(10 - 2)]), 2, 3]");
    assert_eq!(expression_shape("[]"), "[]");
}

#[test]
fn calls() {
    assert_eq!(expression_shape("f()"), "f()");
    assert_eq!(expression_shape("f(a, b + 1)"), "f(a, (b + 1))");
    assert_eq!(expression_shape("std::println(\"{}\", i)"), "std::println(\"{}\", i)");
    assert_eq!(expression_shape("f(g(1),)"), "f(g(1))");
}

#[test]
fn type_annotations() {
    match &tree("let mut arr: Array<i32> = [5, 6]").statements[0].kind {
        ASTStatementKind::Let(l) => {
            assert!(l.is_mut);
            assert_eq!(l.identifier.lexeme, "arr");
            assert_eq!(shape(l.type_annotation.as_ref().unwrap()), "Array<i32>");
        }
        other => panic!("{:?}", other),
    }
    match &tree("let m: Map<K, V> = x").statements[0].kind {
        ASTStatementKind::Let(l) => {
            assert_eq!(shape(l.type_annotation.as_ref().unwrap()), "Map<K, V>");
        }
        other => panic!("{:?}", other),
    }
    match &tree("fn f(a: i32, b, c: u8): u32 { return a }").statements[0].kind {
        ASTStatementKind::FuncDecl(f) => {
            assert_eq!(f.identifier.lexeme, "f");
            assert_eq!(f.parameters.len(), 3);
            assert_eq!(shape(f.parameters[0].type_annotation.as_ref().unwrap()), "i32<>");
            assert!(f.parameters[1].type_annotation.is_none());
            assert_eq!(f.parameters[2].identifier.lexeme, "c");
            assert_eq!(shape(f.type_annotation.as_ref().unwrap()), "u32<>");
        }
        other => panic!("{:?}", other),
    }
}

#[test]
fn statements_are_told_by_their_first_token() {
    let ast = tree("let a = 1 if a { } while a { } fn f { } for i in a { } return a { } a");
    let kinds: Vec<&str> = ast
        .statements
        .iter()
        .map(|s| match &s.kind {
            ASTStatementKind::Expression(_) => "expression",
            ASTStatementKind::Let(_) => "let",
            ASTStatementKind::If(_) => "if",
            ASTStatementKind::Block(_) => "block",
            ASTStatementKind::While(_) => "while",
            ASTStatementKind::FuncDecl(_) => "fn",
            ASTStatementKind::Return(_) => "return",
            ASTStatementKind::For(_) => "for",
        })
        .collect();
    assert_eq!(kinds, vec!["let", "if", "while", "fn", "for", "return", "block", "expression"]);
}

#[test]
fn return_without_a_value() {
    match &tree("fn f() { return }").statements[0].kind {
        ASTStatementKind::FuncDecl(f) => match &f.body.kind {
            ASTStatementKind::Block(b) => match &b.statements[0].kind {
                ASTStatementKind::Return(r) => assert!(r.return_value.is_none()),
                other => panic!("{:?}", other),
            },
            other => panic!("{:?}", other),
        },
        other => panic!("{:?}", other),
    }
    match &tree("return").statements[0].kind {
        ASTStatementKind::Return(r) => assert!(r.return_value.is_none()),
        other => panic!("{:?}", other),
    }
}

#[test]
fn empty_program() {
    assert_eq!(tree("").statements.len(), 0);
    assert_eq!(tree(" \n ").statements.len(), 0);
}

#[test]
fn unexpected_token_with_context() {
    match failure("let a = b + )") {
        ParseError::UnexpectedToken(token, context) => {
            assert_eq!(token.token, Token::RightParantheses);
            assert_eq!(context, "= b +");
        }
        other => panic!("{:?}", other),
    }
    match failure("*") {
        ParseError::UnexpectedToken(token, context) => {
            assert_eq!(token.token, Token::Star);
            assert_eq!(context, "");
        }
        other => panic!("{:?}", other),
    }
    match failure("a +") {
        ParseError::UnexpectedToken(token, context) => {
            assert_eq!(token.token, Token::EOF);
            assert_eq!(context, "a +");
        }
        other => panic!("{:?}", other),
    }
    assert!(matches!(failure("[1, 2"), ParseError::UnexpectedToken(_, _)));
    assert!(matches!(failure("a[1"), ParseError::UnexpectedToken(_, _)));
    assert!(matches!(failure("std println()"), ParseError::UnexpectedToken(_, _)));
    assert!(matches!(failure("fn (a) { }"), ParseError::UnexpectedToken(_, _)));
}

#[test]
fn invalid_for() {
    match failure("for 1 in a { }") {
        ParseError::InvalidFor(token, detail) => {
            assert_eq!(token.lexeme, "1");
            assert_eq!(detail, "Expected variable declaration");
        }
        other => panic!("{:?}", other),
    }
    match failure("for i of a { }") {
        ParseError::InvalidFor(token, detail) => {
            assert_eq!(token.lexeme, "of");
            assert_eq!(detail, "Expected 'in'");
        }
        other => panic!("{:?}", other),
    }
}

#[test]
fn invalid_assignment() {
    match failure("let mut 5 = 1") {
        ParseError::InvalidAssignment(token, context) => {
            assert_eq!(token.lexeme, "5");
            assert_eq!(context, "let mut");
        }
        other => panic!("{:?}", other),
    }
    match failure("let a 5") {
        ParseError::InvalidAssignment(token, context) => {
            assert_eq!(token.lexeme, "5");
            assert_eq!(context, "let a");
        }
        other => panic!("{:?}", other),
    }
}

#[test]
fn missing_closing_brace() {
    match failure("if a { b") {
        ParseError::MissingClosingBrace(token) => assert_eq!(token.token, Token::EOF),
        other => panic!("{:?}", other),
    }
}

#[test]
fn missing_closing_paren() {
    match failure("(a + b") {
        ParseError::MissingClosingParen(token) => assert_eq!(token.token, Token::EOF),
        other => panic!("{:?}", other),
    }
    match failure("f(a b)") {
        ParseError::MissingClosingParen(token) => assert_eq!(token.lexeme, "b"),
        other => panic!("{:?}", other),
    }
    assert!(matches!(failure("fn f(a"), ParseError::MissingClosingParen(_)));
}

#[test]
fn expected_opening_paren() {
    match failure("std::println 1") {
        ParseError::ExpectedOpeningParen(token) => assert_eq!(token.lexeme, "1"),
        other => panic!("{:?}", other),
    }
}

#[test]
fn missing_type() {
    match failure("let a: = 1") {
        ParseError::MissingType(token, context) => {
            assert_eq!(token.token, Token::Assignment);
            assert_eq!(context, "let a :");
        }
        other => panic!("{:?}", other),
    }
    assert!(matches!(failure("let a: T<> = 1"), ParseError::MissingType(_, _)));
    assert!(matches!(failure("fn f(a: ) { }"), ParseError::MissingType(_, _)));
}

#[test]
fn parse_errors_are_reported_with_their_line() {
    assert_eq!(
        failure("let a = 1\nlet b = a + )").to_string(),
        "Syntax error: unexpected token ')' after = a + on line 2"
    );
    assert_eq!(
        failure("for i of a { }").to_string(),
        "Syntax error: invalid for at 'of': Expected 'in' on line 1"
    );
    assert_eq!(
        failure("\n\nlet 5").to_string(),
        "Syntax error: invalid assignment at '5' after let on line 3"
    );
    assert_eq!(failure("{ a").to_string(), "Syntax error: missing closing '}' at '' on line 1");
    assert_eq!(failure("(a ]").to_string(), "Syntax error: missing closing ')' at ']' on line 1");
    assert_eq!(
        failure("std::f a").to_string(),
        "Syntax error: expected opening '(' at 'a' on line 1"
    );
    assert_eq!(
        failure("let a: 1").to_string(),
        "Syntax error: missing type at '1' after let a : on line 1"
    );
    assert_eq!(failure("f(").token().token, Token::EOF);
}

#[test]
fn no_token_is_left_over() {
    assert_eq!(tree("a b c").statements.len(), 3);
    assert_eq!(tree("let a = 1 a = a + 1 return a").statements.len(), 3);
    assert!(matches!(failure("a )"), ParseError::UnexpectedToken(_, _)));
    assert!(matches!(failure("let a = 1 }"), ParseError::UnexpectedToken(_, _)));
    assert!(matches!(failure("f(1) ]"), ParseError::UnexpectedToken(_, _)));
}

#[test]
fn statements_one_by_one() {
    let tokens = tokenizer::tokenize(b"let a = 1 return a").unwrap();
    let mut node = parser::parser::Node::new(tokens);
    assert!(!node.is_at_end());
    assert!(matches!(node.next_statement().unwrap().unwrap().kind, ASTStatementKind::Let(_)));
    assert!(!node.is_at_end());
    assert!(matches!(node.parse_statement().unwrap().kind, ASTStatementKind::Return(_)));
    assert!(node.is_at_end());
    assert!(node.next_statement().unwrap().is_none());
    assert!(node.is_at_end());
}

#[test]
fn counter_counts_up() {
    let mut counter = parser::parser::Counter::new();
    assert_eq!(counter.get_value(), 0);
    counter.increment();
    counter.increment();
    assert_eq!(counter.get_value(), 2);
}

#[test]
fn precedence_numbers() {
    let precedence = |kind: ASTBinaryOperatorKind| {
        let token = tokenizer::tokenize(b"+").unwrap().remove(0);
        parser::ASTBinaryOperator::new(kind, token).precedence()
    };
    assert_eq!(precedence(ASTBinaryOperatorKind::Star), 19);
    assert_eq!(precedence(ASTBinaryOperatorKind::Division), 19);
    assert_eq!(precedence(ASTBinaryOperatorKind::Addition), 18);
    assert_eq!(precedence(ASTBinaryOperatorKind::Subtraction), 18);
    assert_eq!(precedence(ASTBinaryOperatorKind::BwAnd), 17);
    assert_eq!(precedence(ASTBinaryOperatorKind::BwXor), 16);
    assert_eq!(precedence(ASTBinaryOperatorKind::BwOr), 15);
    assert_eq!(precedence(ASTBinaryOperatorKind::LowerThan), 29);
    assert_eq!(precedence(ASTBinaryOperatorKind::GreaterThan), 29);
    assert_eq!(precedence(ASTBinaryOperatorKind::Equals), 30);
    assert_eq!(precedence(ASTBinaryOperatorKind::Inequal), 30);
}

#[test]
fn trees_are_built_by_hand() {
    let mut tokens = tokenizer::tokenize(b"a 1").unwrap();
    let one = tokens.remove(1);
    let a = tokens.remove(0);
    let mut ast = Ast::new();
    ast.add_statement(parser::ASTStatement::expression(ASTExpression::assignment(
        a,
        ASTExpression::number(one),
    )));
    assert_eq!(ast.statements.len(), 1);
    match &ast.statements[0].kind {
        ASTStatementKind::Expression(e) => assert_eq!(shape(e), "(a = 1)"),
        other => panic!("{:?}", other),
    }
}
