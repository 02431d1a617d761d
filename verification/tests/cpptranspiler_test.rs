use rust::evaluator;
use rust::evaluator::to_cpp::{init_std_names, init_types, StdTable, TypeTable};
use rust::parser;
use rust::tokenizer;

const TYPES: &str = "\
name;cpp;library
i8;int8_t;cstdint
i16;int16_t;cstdint
i32;int32_t;cstdint
i64;int64_t;cstdint
u8;uint8_t;cstdint
u16;uint16_t;cstdint
u32;uint32_t;cstdint
u64;uint64_t;cstdint
String;std::string;string
Array;Array;
";

const FUNCTIONS: &str = "\
name;library
std::println;print
";

fn tables() -> (TypeTable, StdTable) {
    (
        init_types("types.csv", TYPES.as_bytes()).unwrap(),
        init_std_names("functions.csv", FUNCTIONS.as_bytes()).unwrap(),
    )
}

fn transpile(input: &str) -> String {
    let (types, std_names) = tables();
    let tokens = tokenizer::tokenize(input.as_bytes()).unwrap();
    let ast = parser::parse(tokens).unwrap();
    evaluator::cpptranspile(&ast, &types, &std_names)
}

fn evaluate_and_compare(input: &str, expected_output: &str) -> bool {
    let (types, std_names) = tables();
    match tokenizer::tokenize(input.as_bytes()) {
        Ok(tokens) => match parser::parse(tokens) {
            Ok(ast) => {
                let output = evaluator::cpptranspile(&ast, &types, &std_names);
                println!("{:?}", ast.statements);
                if output != expected_output {
                    println!("output: {}", output);
                    return false;
                }

                return true;
            }
            Err(_) => return false,
        },
        Err(error) => {
            println!("{:?}", error);
            return false;
        }
    }
}

#[test]
fn cpptranspiler_test_assignment() {
    assert!(evaluate_and_compare(
        r#"let i: u32 = u - 10 * (i)"#,
        "#include <cstdint>
const uint32_t i = u - 10 * (i);"
    ));
}

#[test]
fn cpptranspiler_test_function() {
    assert!(evaluate_and_compare(
        r#"fn main(): i32 { return 0 }"#,
        "#include <cstdint>
int32_t main() { return 0; }"
    ));
}

#[test]
fn cpptranspiler_test_if_() {
    assert!(evaluate_and_compare(
        r#"
    if i < 10 {
        i = 20
    } else {
        i = i + 20
    }
"#,
        "if ( i < 10 ) { i = 20; } else { i = i + 20; }"
    ));
}

#[test]
fn std_function_calls() {
    assert!(evaluate_and_compare(
        r#"fn main(): i32 { std::println("hello") }"#,
        "#include <cstdint>

#include <print>
int32_t main() { std::println(\"hello\"); }"
    ));
}

#[test]
fn for_range() {
    assert!(evaluate_and_compare(
        r#"
    for i: i32 in 10..20 {
        std::println("{}", i)
    }
"#,
        "#include <cstdint>

#include <print>
for ( int32_t i = 10; i < 20; i++ ) { std::println(\"{}\", i); }"
    ));

    assert!(evaluate_and_compare(
        r#"
    for i: i32 in (l * 3)..(10 - 3) {
        std::println("{}", i)
    }
"#,
        "#include <cstdint>

#include <print>
for ( int32_t i = (l * 3); i < (10 - 3); i++ ) { std::println(\"{}\", i); }"
    ));

    assert!(evaluate_and_compare(
        r#"
    for i: i32 in array {
        std::println("{}", i)
    }
"#,
        "#include <cstdint>

#include <print>
for ( int32_t i : array ) { std::println(\"{}\", i); }"
    ));

    assert!(evaluate_and_compare(
        r#"
    for i in array {
        std::println("{}", i)
    }
"#,
        "#include <print>
for ( auto i : array ) { std::println(\"{}\", i); }"
    ));
}

#[test]
fn cpptranspiler_test_array() {
    assert!(evaluate_and_compare(
        r#"
        arr[i]
    "#,
        "arr[i]"
    ));

    // an assignment to an element ends in a semicolon, as every assignment
    assert!(evaluate_and_compare(
        r#"
        arr[i] = i - 10
    "#,
        "arr[i] = i - 10;"
    ));
}

#[test]
fn generics() {
    assert!(evaluate_and_compare(
        r#"
        let i: UserDefined<i32> = 10
        "#,
        "#include <cstdint>
const UserDefined<int32_t> i = 10;"
    ));
}

#[test]
fn each_header_is_included_once() {
    let output = transpile("let a: i32 = 1 let b: u8 = 2 let s: String = \"x\" let c: i64 = 3");
    assert_eq!(
        output,
        "#include <cstdint>\n\n#include <string>\nconst int32_t a = 1;const uint8_t b = 2;const std::string s = \"x\";const int64_t c = 3;"
    );
    assert_eq!(output.matches("#include <cstdint>").count(), 1);
    assert_eq!(output.matches("#include <string>").count(), 1);
}

#[test]
fn headers_come_in_the_order_of_first_occurrence() {
    assert_eq!(
        transpile("std::println(\"a\") let a: i32 = 1 std::println(\"b\")"),
        "#include <print>\n\n#include <cstdint>\nstd::println(\"a\");const int32_t a = 1;std::println(\"b\");"
    );
}

#[test]
fn let_is_const_unless_mutable() {
    assert_eq!(transpile("let i = 1"), "const auto i = 1;");
    assert_eq!(transpile("let mut i = 1"), "auto i = 1;");
    assert_eq!(transpile("let mut i: u16 = 1"), "#include <cstdint>\nuint16_t i = 1;");
}

#[test]
fn array_annotation_puts_brackets_behind_the_name() {
    assert_eq!(
        transpile("let mut arr: Array<i32> = [5, 6, 7]"),
        "#include <cstdint>\nint32_t arr[] = { 5, 6, 7 };"
    );
    assert_eq!(transpile("let arr: Array<Thing> = []"), "const Thing arr[] = {  };");
}

#[test]
fn unknown_types_are_emitted_as_written() {
    assert_eq!(transpile("let a: Thing = 1"), "const Thing a = 1;");
    assert_eq!(
        transpile("let a: Pair<Thing, u8> = 1"),
        "#include <cstdint>\nconst Pair<Thing, uint8_t> a = 1;"
    );
    assert_eq!(transpile("std::exit(1)"), "std::exit(1);");
}

#[test]
fn for_range_has_one_of_each_clause() {
    let output = transpile("for i in 0..n { }");
    assert_eq!(output, "for ( auto i = 0; i < n; i++ ) { }");
    assert_eq!(output.matches("= 0").count(), 1);
    assert_eq!(output.matches("< n").count(), 1);
    assert_eq!(output.matches("++").count(), 1);
}

#[test]
fn statements_and_expressions() {
    assert_eq!(transpile("while (a < 3) { a = a + 1 }"), "while (a < 3) { a = a + 1; }");
    assert_eq!(transpile("fn f(a: i32, b) { return }"), "auto f(a, b) { return; }");
    assert_eq!(transpile("fn f { g(1, x) }"), "auto f() { g(1, x); }");
    assert_eq!(transpile("if a { } "), "if ( a ) { } ");
    assert_eq!(transpile("x = -a + ~b"), "x = -a + ~b;");
    assert_eq!(transpile("a = [1, 2]"), "a = { 1, 2 };");
    assert_eq!(transpile(""), "");
}

#[test]
fn tables_are_read_from_delimited_text() {
    let (types, std_names) = tables();
    assert_eq!(types.entries.len(), 10);
    assert_eq!(types.entries[0].key, "i8");
    assert_eq!(types.entries[0].info.name, "int8_t");
    assert_eq!(types.entries[0].info.library, "cstdint");
    assert_eq!(types.entries[9].key, "Array");
    assert_eq!(types.entries[9].info.library, "");
    assert_eq!(std_names.entries.len(), 1);
    assert_eq!(std_names.entries[0].key, "std::println");
    assert_eq!(std_names.entries[0].library, "print");
}
