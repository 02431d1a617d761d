use rust::evaluator;
use rust::evaluator::interpreter::{ASTInterpreter, InterpreterError, VariableType};
use rust::parser;
use rust::tokenizer;

fn evaluate_and_compare(input: &str, expected_output: &str) -> bool {
    match tokenizer::tokenize(input.as_bytes()) {
        Ok(tokens) => match parser::parse(tokens) {
            Ok(ast) => {
                let output = evaluator::interpret(&ast).unwrap();
                println!("{:?}", ast.statements);
                if output != expected_output {
                    println!("output: {}", output);
                    return false;
                }

                return true;
            }
            Err(_) => return false,
        },
        Err(error) => {
            println!("{:?}", error);
            return false;
        }
    }
}

fn value(input: &str) -> String {
    let ast = parser::parse(tokenizer::tokenize(input.as_bytes()).unwrap()).unwrap();
    evaluator::interpret(&ast).unwrap()
}

fn failure(input: &str) -> InterpreterError {
    let ast = parser::parse(tokenizer::tokenize(input.as_bytes()).unwrap()).unwrap();
    evaluator::interpret(&ast).unwrap_err()
}

fn printed(input: &str) -> Vec<String> {
    let ast = parser::parse(tokenizer::tokenize(input.as_bytes()).unwrap()).unwrap();
    let mut interpreter = ASTInterpreter::new();
    interpreter.run(&ast.statements).unwrap();
    interpreter.output
}

#[test]
fn arr_() {
    assert!(evaluate_and_compare(
        r#"
let mut arr: Array<i32> = [5, 6, 7, 3, 10]
        let i = 1
        return arr[i]
"#,
        "6"
    ));
}
#[test]
fn interpreter_test_for_() {
    assert!(evaluate_and_compare(
        r#"
        let i = 0
        let m = 0
        for i in 1..5 {
        	m = i + m
        	std::println("i in loop ", i)
        }
        return m
"#,
        "10"
    ));
}


#[test]
fn sort_() {
    assert!(evaluate_and_compare(
        r#"
let mut arr: Array<i32> = [5, 6, 7, 3, 10]
let n = 5
let i = 0
let j = 0

for i in 0..n-1 {
    let tmp = n - 1
    for j in 0..tmp-i {
        let left = arr[j]
        let right = arr[j + 1]
        if left > right {
            arr[j] = right
            arr[j + 1] = left
        }
    }
}
let n = 5
for i in 0..n {
    std::println(i, " " ,arr[i])
}
return arr
"#,
        "[3, 5, 6, 7, 10]"
    ));
}


#[test]
fn interpreter_test_if_() {
    assert!(evaluate_and_compare(
        r#"
        let i = 1
        let v = 2
        if ( 5 < 10 ) {
        let a = i + 10
        }
        
        v = 10 + i

        std::println("noj", i, "koj", v)
        
        return v

        
        
"#,
        "11"
    ));
}

#[test]
fn range_is_half_open() {
    assert_eq!(value("let sum = 0 for i in 0..3 { sum = sum + i } return sum"), "3");
    assert_eq!(value("return 0..3"), "[0, 1, 2]");
    assert_eq!(value("return 2..2"), "[]");
    assert_eq!(value("return 5..2"), "[]");
    assert_eq!(value("return -2..1"), "[-2, -1, 0]");
}

#[test]
fn array_assignment_is_seen_by_indexing() {
    assert_eq!(value("let a = [1,2,3] a[1] = 9 return a[1]"), "9");
    assert_eq!(value("let a = [1,2,3] a[1] = 9 return a"), "[1, 9, 3]");
    assert_eq!(value("let a = [1,2,3] a[0] = [4, 5] return a"), "[[4, 5], 2, 3]");
}

#[test]
fn arithmetic() {
    assert_eq!(value("1 + 2 * 3"), "7");
    assert_eq!(value("(1 + 2) * 3"), "9");
    assert_eq!(value("10 - 4 - 3"), "3");
    assert_eq!(value("7 / 2"), "3");
    assert_eq!(value("-7 / 2"), "-3");
    assert_eq!(value("- 5"), "-5");
    assert_eq!(value("~5"), "-6");
    assert_eq!(value("12 & 10"), "8");
    assert_eq!(value("12 | 10"), "14");
    assert_eq!(value("12 ^ 10"), "6");
    assert_eq!(value("0"), "0");
    assert_eq!(value("9223372036854775807"), "9223372036854775807");
    assert_eq!(value("-9223372036854775807 - 1"), "-9223372036854775808");
}

#[test]
fn arithmetic_wraps_around() {
    assert_eq!(value("9223372036854775807 + 1"), "-9223372036854775808");
    assert_eq!(value("-9223372036854775807 - 2"), "9223372036854775807");
    assert_eq!(value("4611686018427387904 * 2"), "-9223372036854775808");
    assert_eq!(value("(-9223372036854775807 - 1) / -1"), "-9223372036854775808");
    assert_eq!(value("-(-9223372036854775807 - 1)"), "-9223372036854775808");
}

#[test]
fn comparisons_give_one_or_zero() {
    assert_eq!(value("1 < 2"), "1");
    assert_eq!(value("2 < 1"), "0");
    assert_eq!(value("2 > 1"), "1");
    assert_eq!(value("1 > 1"), "0");
    assert_eq!(value("3 == 3"), "1");
    assert_eq!(value("3 == 4"), "0");
    assert_eq!(value("3 != 4"), "1");
    assert_eq!(value("3 != 3"), "0");
}

#[test]
fn values_are_rendered() {
    assert_eq!(value("\"text\""), "\"text\"");
    assert_eq!(value("[1, \"a\", [2, 3], []]"), "[1, \"a\", [2, 3], []]");
    assert_eq!(value(""), "");
    assert_eq!(VariableType::Number(-120).to_string(), "-120");
    assert_eq!(VariableType::String(String::from("plain")).to_string(), "plain");
    assert_eq!(
        VariableType::Array(vec![VariableType::Number(1), VariableType::Array(vec![])]).to_string(),
        "[1, []]"
    );
}

#[test]
fn variables() {
    assert_eq!(value("let a = 1 let b = a + 1 a = b * 10 return a + b"), "22");
    assert_eq!(value("x = 5 return x"), "5");
    assert_eq!(value("let a = 1 let a = 2 return a"), "2");
    assert_eq!(value("let a = (b = 3) + 1 return a * b"), "12");
}

#[test]
fn if_takes_a_branch_on_a_number() {
    assert_eq!(value("let r = 0 if 1 { r = 10 } else { r = 20 } return r"), "10");
    assert_eq!(value("let r = 0 if 0 { r = 10 } else { r = 20 } return r"), "20");
    assert_eq!(value("let r = 0 if 0 { r = 10 } return r"), "0");
    assert_eq!(value("let r = 0 if 2 - 5 { r = 10 } return r"), "10");
}

#[test]
fn for_binds_each_element_in_order() {
    assert_eq!(value("let r = 0 for x in [3, 4, 5] { r = r * 10 + x } return r"), "345");
    assert_eq!(value("let a = [1, 2] let r = 0 for x in a { r = r + x } return x + r"), "5");
    assert_eq!(value("let r = 7 for x in [] { r = 0 } return r"), "7");
}

#[test]
fn println_keeps_its_lines() {
    assert_eq!(
        printed("std::println(\"a\", 1, [2, 3]) std::println() std::println(1 + 1)"),
        vec![String::from("\"a\" 1 [2, 3]"), String::from(""), String::from("2")]
    );
    assert_eq!(value("std::println(4, 5)"), "5");
}

#[test]
fn function_declarations_are_recorded() {
    let ast =
        parser::parse(tokenizer::tokenize(b"fn f(a) { return a } fn g { } 3").unwrap()).unwrap();
    let mut interpreter = ASTInterpreter::new();
    interpreter.run(&ast.statements).unwrap();
    assert_eq!(interpreter.functions.len(), 2);
    assert_eq!(interpreter.functions[0].identifier.lexeme, "f");
    assert_eq!(interpreter.functions[1].identifier.lexeme, "g");
    assert_eq!(interpreter.result(), "3");
}

#[test]
fn undefined_variable() {
    match failure("return a") {
        InterpreterError::UndefinedVariable(name) => assert_eq!(name, "a"),
        other => panic!("{:?}", other),
    }
    match failure("b[0] = 1") {
        InterpreterError::UndefinedVariable(name) => assert_eq!(name, "b"),
        other => panic!("{:?}", other),
    }
}

#[test]
fn type_mismatch() {
    match failure("1 + \"a\"") {
        InterpreterError::TypeMismatch(expected, found) => {
            assert_eq!(expected, "number");
            assert_eq!(found, "string");
        }
        other => panic!("{:?}", other),
    }
    match failure("let a = 1 return a[0]") {
        InterpreterError::TypeMismatch(expected, found) => {
            assert_eq!(expected, "array");
            assert_eq!(found, "number");
        }
        other => panic!("{:?}", other),
    }
    match failure("for x in 5 { }") {
        InterpreterError::TypeMismatch(expected, found) => {
            assert_eq!(expected, "array");
            assert_eq!(found, "number");
        }
        other => panic!("{:?}", other),
    }
    match failure("if [1] { }") {
        InterpreterError::TypeMismatch(expected, found) => {
            assert_eq!(expected, "number");
            assert_eq!(found, "array");
        }
        other => panic!("{:?}", other),
    }
    match failure("let a = std::println()") {
        InterpreterError::TypeMismatch(expected, found) => {
            assert_eq!(expected, "value");
            assert_eq!(found, "nothing");
        }
        other => panic!("{:?}", other),
    }
    match failure("9223372036854775808") {
        InterpreterError::TypeMismatch(expected, found) => {
            assert_eq!(expected, "number");
            assert_eq!(found, "9223372036854775808");
        }
        other => panic!("{:?}", other),
    }
    assert!(matches!(failure("let a = \"s\" a[0] = 1"), InterpreterError::TypeMismatch(_, _)));
    assert!(matches!(failure("-\"s\""), InterpreterError::TypeMismatch(_, _)));
    assert!(matches!(failure("1..\"s\""), InterpreterError::TypeMismatch(_, _)));
}

#[test]
fn unsupported_std_call() {
    match failure("std::exit(1)") {
        InterpreterError::UnsupportedStdCall(name) => assert_eq!(name, "exit"),
        other => panic!("{:?}", other),
    }
}

#[test]
fn unsupported_statement() {
    match failure("while 1 { }") {
        InterpreterError::UnsupportedStatement(kind) => assert_eq!(kind, "While"),
        other => panic!("{:?}", other),
    }
    match failure("true") {
        InterpreterError::UndefinedVariable(name) => assert_eq!(name, "true"),
        other => panic!("{:?}", other),
    }
}

#[test]
fn index_out_of_range() {
    assert!(matches!(failure("let a = [1, 2] return a[2]"), InterpreterError::IndexOutOfRange));
    assert!(matches!(failure("let a = [1, 2] return a[-1]"), InterpreterError::IndexOutOfRange));
    assert!(matches!(failure("let a = [1, 2] a[2] = 0"), InterpreterError::IndexOutOfRange));
    assert!(matches!(failure("let a = [] a[0] = 0"), InterpreterError::IndexOutOfRange));
}

#[test]
fn division_by_zero() {
    assert!(matches!(failure("1 / 0"), InterpreterError::DivisionByZero));
    assert!(matches!(failure("let a = 3 return a / (a - 3)"), InterpreterError::DivisionByZero));
}

#[test]
fn evaluation_stops_at_the_first_error() {
    let ast = parser::parse(tokenizer::tokenize(b"std::println(1) x std::println(2)").unwrap())
        .unwrap();
    let mut interpreter = ASTInterpreter::new();
    assert!(interpreter.run(&ast.statements).is_err());
    assert_eq!(interpreter.output, vec![String::from("1")]);
}

#[test]
fn interpreting_twice_gives_the_same() {
    let input = "let a = [3, 1, 2] let s = 0 for x in a { s = s * 7 + x } return s - a[1]";
    assert_eq!(value(input), value(input));
    assert_eq!(value(input), "155");
}

#[test]
fn runtime_errors_are_reported() {
    assert_eq!(failure("a").to_string(), "Runtime error: undefined variable a");
    assert_eq!(failure("1 + [2]").to_string(), "Runtime error: expected number, found array");
    assert_eq!(failure("std::exit()").to_string(), "Runtime error: unsupported std call exit");
    assert_eq!(failure("while 1 { }").to_string(), "Runtime error: unsupported statement While");
    assert_eq!(failure("let a = [1] a[1]").to_string(), "Runtime error: index out of range");
    assert_eq!(failure("1 / 0").to_string(), "Runtime error: division by zero");
}

#[test]
fn functions_are_called() {
    assert_eq!(value("fn add(a, b) { return a + b } add(2, 3)"), "5");
    assert_eq!(value("fn add(a: i32, b: i32): i32 { return a + b } let x = add(2, 3) * 2 return x"), "10");
    assert_eq!(value("fn one { return 1 } one() + one()"), "2");
    assert_eq!(value("fn twice(a) { return a + a } twice(twice(3))"), "12");
    assert_eq!(value("fn last(a) { a + 1 a + 2 } last(1)"), "3");
    assert_eq!(value("fn pair(a, b) { return [a, b] } pair(1, \"x\")"), "[1, \"x\"]");
}

#[test]
fn functions_may_call_themselves() {
    assert_eq!(
        value("fn fact(n) { if n < 2 { return 1 } else { return n * fact(n - 1) } } fact(10)"),
        "3628800"
    );
    assert_eq!(
        value(
            "fn fib(n) { if n < 2 { return n } else { return fib(n - 1) + fib(n - 2) } } fib(15)"
        ),
        "610"
    );
}

#[test]
fn a_call_has_variables_of_its_own() {
    assert_eq!(value("let x = 1 fn f() { x = 2 return x } let y = f() return x * 10 + y"), "12");
    assert_eq!(value("fn f(a) { a = a + 1 return a } let a = 5 f(a) return a"), "5");
    match failure("let x = 1 fn f() { return x } f()") {
        InterpreterError::UndefinedVariable(name) => assert_eq!(name, "x"),
        other => panic!("{:?}", other),
    }
}

#[test]
fn a_call_goes_to_the_last_declaration() {
    assert_eq!(value("fn f() { return 1 } fn f() { return 2 } f()"), "2");
    assert_eq!(value("fn f() { return 1 } let a = f() fn f() { return 2 } return a * 10 + f()"), "12");
    match failure("fn f() { fn g() { return 1 } return g() } let a = f() g()") {
        InterpreterError::UndefinedVariable(name) => assert_eq!(name, "g"),
        other => panic!("{:?}", other),
    }
}

#[test]
fn calls_that_fail() {
    match failure("g(1)") {
        InterpreterError::UndefinedVariable(name) => assert_eq!(name, "g"),
        other => panic!("{:?}", other),
    }
    match failure("fn f(a) { return a } f(1, 2)") {
        InterpreterError::TypeMismatch(expected, found) => {
            assert_eq!(expected, "arguments");
            assert_eq!(found, "f");
        }
        other => panic!("{:?}", other),
    }
    match failure("fn f() { } let a = f()") {
        InterpreterError::TypeMismatch(expected, found) => {
            assert_eq!(expected, "value");
            assert_eq!(found, "nothing");
        }
        other => panic!("{:?}", other),
    }
    assert!(matches!(failure("fn f(a) { return 1 / a } f(0)"), InterpreterError::DivisionByZero));
}

#[test]
fn calls_nest_to_a_bounded_depth() {
    match failure("fn f() { f() } f()") {
        InterpreterError::UnsupportedStatement(kind) => assert_eq!(kind, "Call"),
        other => panic!("{:?}", other),
    }
    assert_eq!(
        value("fn down(n) { if n < 1 { return 0 } else { return 1 + down(n - 1) } } down(63)"),
        "63"
    );
    match failure("fn down(n) { if n < 1 { return 0 } else { return 1 + down(n - 1) } } down(64)") {
        InterpreterError::UnsupportedStatement(kind) => assert_eq!(kind, "Call"),
        other => panic!("{:?}", other),
    }
}

#[test]
fn a_call_prints_where_its_caller_stopped() {
    assert_eq!(
        printed("fn f(a) { std::println(\"in\", a) } std::println(\"before\") f(1) std::println(\"after\")"),
        vec![String::from("\"before\""), String::from("\"in\" 1"), String::from("\"after\"")]
    );
    let ast = parser::parse(
        tokenizer::tokenize(b"fn f() { std::println(1) x } std::println(0) f()").unwrap(),
    )
    .unwrap();
    let mut interpreter = ASTInterpreter::new();
    assert!(interpreter.run(&ast.statements).is_err());
    assert_eq!(interpreter.output, vec![String::from("0"), String::from("1")]);
}
