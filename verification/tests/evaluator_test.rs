use rust::evaluator;
use rust::evaluator::to_cpp::{init_std_names, init_types};
use rust::parser;
use rust::tokenizer;

fn evaluate_and_compare(input: &str, expected_output: &str) -> bool {
    let types = init_types(
        "types.csv",
        b"name;cpp;library\nu32;uint32_t;cstdint\ni32;int32_t;cstdint\n",
    )
    .unwrap();
    let std_names =
        init_std_names("functions.csv", b"name;library\nstd::println;print\n").unwrap();
    match tokenizer::tokenize(input.as_bytes()) {
        Ok(tokens) => match parser::parse(tokens) {
            Ok(ast) => {
                let output = evaluator::evaluate(&ast, &types, &std_names);
                println!("{:?}", ast.statements);
                if output != expected_output {
                    println!("output: {}", output);
                    return false;
                }

                return true;
            }
            Err(_) => return false,
        },
        Err(error) => {
            println!("{:?}", error);
            return false;
        }
    }
}

#[test]
fn evaluator_test_assignment() {
    assert!(evaluate_and_compare(
        r#"let i: u32 = u"#,
        "const uint32_t i = u;"
    ));
}

#[test]
fn evaluator_test_function() {
    assert!(evaluate_and_compare(
        r#"fn main(): u32 { return 0 }"#,
        "uint32_t main() { return 0; }"
    ));
}

#[test]
fn evaluator_test_if_() {
    assert!(evaluate_and_compare(
        r#"
    if i < 10 {
        i = 20
    } else {
        i = i + 20
    }
"#,
        "if ( i < 10 ) { i = 20; } else { i = i + 20; }"
    ));
}
