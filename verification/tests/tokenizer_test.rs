use rust::tokenizer;
use rust::tokenizer::Error;
use rust::tokenizer::Position;
use rust::tokenizer::Token;
use rust::tokenizer::TokenInfo;

fn tokenize_and_compare(input: &str, expected_output: &[TokenInfo]) -> bool {
    match tokenizer::tokenize(input.as_bytes()) {
        Ok(tokens) => {
            let result = tokens.iter().eq(expected_output);
            if !result {
                for (result_token, expected_token) in tokens.iter().zip(expected_output.iter()) {
                    if result_token != expected_token {
                        println!("result: {:?}", result_token);
                        println!("expected: {:?}", expected_token);
                    }
                }
            }
            result
        }
        Err(error) => {
            println!("{:?}", error);
            false
        }
    }
}

fn record(token: Token, lexeme: &str, row: u32, col: u32) -> TokenInfo {
    TokenInfo { token, lexeme: String::from(lexeme), start_position: Position { row, col } }
}

fn kinds(input: &str) -> Vec<Token> {
    tokenizer::tokenize(input.as_bytes()).unwrap().iter().map(|t| t.token).collect()
}

#[test]
fn typenames() {
    assert!(tokenize_and_compare("u16", &[
                TokenInfo{token: Token::Identifier, lexeme: String::from("u16"), start_position: Position{ row: 1, col: 1}},
                TokenInfo { token: Token::EOF, lexeme: String::from(""), start_position: Position { row: 1, col: 4 } }
            ]));

    assert!(tokenize_and_compare("u16\nu64 u32", &[
                TokenInfo{token: Token::Identifier, lexeme: String::from("u16"), start_position: Position{ row: 1, col: 1}},
                TokenInfo{token: Token::Identifier, lexeme: String::from("u64"), start_position: Position{ row: 2, col: 1}},
                TokenInfo{token: Token::Identifier, lexeme: String::from("u32"), start_position: Position{ row: 2, col: 5}},
                TokenInfo { token: Token::EOF, lexeme: String::from(""), start_position: Position { row: 2, col: 8 } }
            ]));
}

#[test]
fn operators() {
    assert!(tokenize_and_compare("==\n= *", &[
                TokenInfo{token: Token::Equals, lexeme: String::from("=="), start_position: Position{ row: 1, col: 1}},
                TokenInfo{token: Token::Assignment, lexeme: String::from("="), start_position: Position{ row: 2, col: 1}},
                TokenInfo{token: Token::Star, lexeme: String::from("*"), start_position: Position{ row: 2, col: 3}},
                TokenInfo { token: Token::EOF, lexeme: String::from(""), start_position: Position { row: 2, col: 4 } }
            ]));
}

#[test]
fn assignments() {
    assert!(tokenize_and_compare("let\nmut", &[
                TokenInfo{token: Token::Let, lexeme: String::from("let"), start_position: Position{ row: 1, col: 1}},
                TokenInfo{token: Token::Mut, lexeme: String::from("mut"), start_position: Position{ row: 2, col: 1}},
                TokenInfo { token: Token::EOF, lexeme: String::from(""), start_position: Position { row: 2, col: 4 } }
            ]));
}

#[test]
fn identifiers() {
    assert!(tokenize_and_compare("let_\ni_2\nf22nn\n_KSs12", &[
                TokenInfo{token: Token::Identifier, lexeme: String::from("let_"), start_position: Position{ row: 1, col: 1}},
                TokenInfo{token: Token::Identifier, lexeme: String::from("i_2"), start_position: Position{ row: 2, col: 1}},
                TokenInfo{token: Token::Identifier, lexeme: String::from("f22nn"), start_position: Position{ row: 3, col: 1}},
                TokenInfo{token: Token::Identifier, lexeme: String::from("_KSs12"), start_position: Position{ row: 4, col: 1}},
                TokenInfo { token: Token::EOF, lexeme: String::from(""), start_position: Position { row: 4, col: 7 } }
            ]));

    assert!(!tokenize_and_compare("1let_", &[
                TokenInfo{token: Token::Identifier, lexeme: String::from("1let_"), start_position: Position{ row: 1, col: 1}},
                TokenInfo { token: Token::EOF, lexeme: String::from(""), start_position: Position { row: 1, col: 6 } }
            ]));

    assert!(!tokenize_and_compare("%let_", &[
                TokenInfo{token: Token::Identifier, lexeme: String::from("%let_"), start_position: Position{ row: 1, col: 1}},
                TokenInfo { token: Token::EOF, lexeme: String::from(""), start_position: Position { row: 1, col: 6 } }
            ]));
}

#[test]
fn braces() {
    assert!(tokenize_and_compare("{identifier}", &[
                TokenInfo{token: Token::LeftBraces, lexeme: String::from("{"), start_position: Position{ row: 1, col: 1}},
                TokenInfo{token: Token::Identifier, lexeme: String::from("identifier"), start_position: Position{ row: 1, col: 2}},
                TokenInfo{token: Token::RightBraces, lexeme: String::from("}"), start_position: Position{ row: 1, col: 12}},
                TokenInfo { token: Token::EOF, lexeme: String::from(""), start_position: Position { row: 1, col: 13 } }
            ]));

    assert!(!tokenize_and_compare("1let_", &[
                TokenInfo{token: Token::Identifier, lexeme: String::from("1let_"), start_position: Position{ row: 1, col: 1}},
                TokenInfo { token: Token::EOF, lexeme: String::from(""), start_position: Position { row: 4, col: 7 } }
            ]));

    assert!(!tokenize_and_compare("%let_", &[
                TokenInfo{token: Token::Identifier, lexeme: String::from("%let_"), start_position: Position{ row: 1, col: 1}},
                TokenInfo { token: Token::EOF, lexeme: String::from(""), start_position: Position { row: 1, col: 6 } }
            ]));
}

#[test]
fn tokenizer_test_functions() {
    assert!(tokenize_and_compare(
r#"fn main(): u32 {
    return 30
}"#
            , &[
                TokenInfo{token: Token::Fn, lexeme: String::from("fn"), start_position: Position{ row: 1, col: 1}},
                TokenInfo{token: Token::Identifier, lexeme: String::from("main"), start_position: Position{ row: 1, col: 4}},
                TokenInfo{token: Token::LeftParantheses, lexeme: String::from("("), start_position: Position{ row: 1, col: 8}},
                TokenInfo{token: Token::RightParantheses, lexeme: String::from(")"), start_position: Position{ row: 1, col: 9}},
                TokenInfo{token: Token::Colon, lexeme: String::from(":"), start_position: Position{ row: 1, col: 10}},
                TokenInfo{token: Token::Identifier, lexeme: String::from("u32"), start_position: Position{ row: 1, col: 12}},
                TokenInfo{token: Token::LeftBraces, lexeme: String::from("{"), start_position: Position{ row: 1, col: 16}},
                TokenInfo{token: Token::Return, lexeme: String::from("return"), start_position: Position{ row: 2, col: 5}},
                TokenInfo{token: Token::Number, lexeme: String::from("30"), start_position: Position{ row: 2, col: 12}},
                TokenInfo{token: Token::RightBraces, lexeme: String::from("}"), start_position: Position{ row: 3, col: 1}},
                TokenInfo { token: Token::EOF, lexeme: String::from(""), start_position: Position { row: 3, col: 2 } }
            ]));

    assert!(tokenize_and_compare(
r#"fn main():u32{return 30}"#
            , &[
                TokenInfo{token: Token::Fn, lexeme: String::from("fn"), start_position: Position{ row: 1, col: 1}},
                TokenInfo{token: Token::Identifier, lexeme: String::from("main"), start_position: Position{ row: 1, col: 4}},
                TokenInfo{token: Token::LeftParantheses, lexeme: String::from("("), start_position: Position{ row: 1, col: 8}},
                TokenInfo{token: Token::RightParantheses, lexeme: String::from(")"), start_position: Position{ row: 1, col: 9}},
                TokenInfo{token: Token::Colon, lexeme: String::from(":"), start_position: Position{ row: 1, col: 10}},
                TokenInfo{token: Token::Identifier, lexeme: String::from("u32"), start_position: Position{ row: 1, col: 11}},
                TokenInfo{token: Token::LeftBraces, lexeme: String::from("{"), start_position: Position{ row: 1, col: 14}},
                TokenInfo{token: Token::Return, lexeme: String::from("return"), start_position: Position{ row: 1, col: 15}},
                TokenInfo{token: Token::Number, lexeme: String::from("30"), start_position: Position{ row: 1, col: 22}},
                TokenInfo{token: Token::RightBraces, lexeme: String::from("}"), start_position: Position{ row: 1, col: 24}},
                TokenInfo { token: Token::EOF, lexeme: String::from(""), start_position: Position { row: 1, col: 25 } }
            ]));
}

#[test]
fn empty_input_is_one_eof_record() {
    assert!(tokenize_and_compare("", &[record(Token::EOF, "", 1, 1)]));
    assert!(tokenize_and_compare(" \n\t ", &[record(Token::EOF, "", 2, 6)]));
}

#[test]
fn sequence_ends_in_its_only_eof_record() {
    let tokens = tokenizer::tokenize(b"let a = b + 1\nreturn a").unwrap();
    let last = tokens.last().unwrap();
    assert_eq!(last.token, Token::EOF);
    assert_eq!(last.lexeme, "");
    assert_eq!(tokens.iter().filter(|t| t.token == Token::EOF).count(), 1);
}

#[test]
fn tab_is_four_columns_wide() {
    assert!(tokenize_and_compare("\ta\n\t\tb c", &[
        record(Token::Identifier, "a", 1, 5),
        record(Token::Identifier, "b", 2, 9),
        record(Token::Identifier, "c", 2, 11),
        record(Token::EOF, "", 2, 12),
    ]));
}

#[test]
fn every_keyword_is_reclassified() {
    assert_eq!(
        kinds("let mut fn return if else for while in match struct std"),
        vec![
            Token::Let, Token::Mut, Token::Fn, Token::Return, Token::If, Token::Else, Token::For,
            Token::While, Token::In, Token::Match, Token::Struct, Token::Std, Token::EOF,
        ]
    );
    assert_eq!(kinds("lets Let interpret"), vec![
        Token::Identifier, Token::Identifier, Token::Identifier, Token::EOF,
    ]);
}

#[test]
fn single_character_tokens() {
    assert_eq!(
        kinds("= * / + - % , : . ( ) { } [ ] < > & | ^ ~"),
        vec![
            Token::Assignment, Token::Star, Token::Division, Token::Addition, Token::Subtraction,
            Token::Modulo, Token::Comma, Token::Colon, Token::Dot, Token::LeftParantheses,
            Token::RightParantheses, Token::LeftBraces, Token::RightBraces,
            Token::LeftSquareBracket, Token::RightSquareBracket, Token::LowerThan,
            Token::GreaterThan, Token::BwAnd, Token::BwOr, Token::BwXor, Token::BwNot, Token::EOF,
        ]
    );
}

#[test]
fn two_character_tokens() {
    assert_eq!(
        kinds("== => :: .. << >> && || <= >= !="),
        vec![
            Token::Equals, Token::Arrow, Token::DoubleColon, Token::Range, Token::BwShl,
            Token::BwShr, Token::And, Token::Or, Token::LowerEqual, Token::GreaterEqual,
            Token::Inequal, Token::EOF,
        ]
    );
    assert!(tokenize_and_compare("a!=b", &[
        record(Token::Identifier, "a", 1, 1),
        record(Token::Inequal, "!=", 1, 2),
        record(Token::Identifier, "b", 1, 4),
        record(Token::EOF, "", 1, 5),
    ]));
}

#[test]
fn longest_match_stops_at_two_characters() {
    assert_eq!(kinds("==="), vec![Token::Equals, Token::Assignment, Token::EOF]);
    assert_eq!(kinds("0..n"), vec![Token::Number, Token::Range, Token::Identifier, Token::EOF]);
    assert_eq!(kinds("..."), vec![Token::Range, Token::Dot, Token::EOF]);
}

#[test]
fn string_keeps_both_quotes() {
    assert!(tokenize_and_compare("\"hello\" x", &[
        record(Token::String, "\"hello\"", 1, 1),
        record(Token::Identifier, "x", 1, 9),
        record(Token::EOF, "", 1, 10),
    ]));
    assert!(tokenize_and_compare("\"\"", &[
        record(Token::String, "\"\"", 1, 1),
        record(Token::EOF, "", 1, 3),
    ]));
}

#[test]
fn string_may_span_lines() {
    assert!(tokenize_and_compare("\"a\nb\" c", &[
        record(Token::String, "\"a\nb\"", 1, 1),
        record(Token::Identifier, "c", 2, 4),
        record(Token::EOF, "", 2, 5),
    ]));
}

#[test]
fn string_may_hold_any_byte() {
    let tokens = tokenizer::tokenize(&[b'"', 0xe9, b'"']).unwrap();
    assert_eq!(tokens[0].token, Token::String);
    assert_eq!(tokens[0].lexeme, "\"\u{e9}\"");
}

#[test]
fn unclosed_string_is_an_error() {
    match tokenizer::tokenize(b"x\n  \"abc") {
        Err(Error::UnclosedString(position)) => assert_eq!(position, Position { row: 2, col: 3 }),
        other => panic!("{:?}", other),
    }
    match tokenizer::tokenize(b"\"") {
        Err(Error::UnclosedString(position)) => assert_eq!(position, Position { row: 1, col: 1 }),
        other => panic!("{:?}", other),
    }
}

#[test]
fn invalid_pattern_is_an_error() {
    match tokenizer::tokenize(b"a\n $b") {
        Err(Error::InvalidPattern(lexeme, position)) => {
            assert_eq!(lexeme, "$");
            assert_eq!(position, Position { row: 2, col: 2 });
        }
        other => panic!("{:?}", other),
    }
    match tokenizer::tokenize(b"a ! b") {
        Err(Error::InvalidPattern(lexeme, position)) => {
            assert_eq!(lexeme, "!");
            assert_eq!(position, Position { row: 1, col: 3 });
        }
        other => panic!("{:?}", other),
    }
    assert!(matches!(tokenizer::tokenize(b"a\rb"), Err(Error::InvalidPattern(_, _))));
    assert!(matches!(tokenizer::tokenize(&[0xe9]), Err(Error::InvalidPattern(_, _))));
}

#[test]
fn scanning_errors_are_reported_with_their_line() {
    assert_eq!(
        tokenizer::tokenize(b"a\n $b").unwrap_err().to_string(),
        "Tokenizer error: invalid pattern $ on line 2"
    );
    assert_eq!(
        tokenizer::tokenize(b"\n\n\"abc").unwrap_err().to_string(),
        "Tokenizer error: Unclosed string on line 3"
    );
    assert_eq!(Error::InvalidStream.to_string(), "Tokenizer error: invalid stream. Cannot read");
}

#[test]
fn positions_advance_and_rewind() {
    let start = Position { row: 3, col: 7 };
    assert_eq!(tokenizer::next_position(start, b'a'), Position { row: 3, col: 8 });
    assert_eq!(tokenizer::next_position(start, b'\t'), Position { row: 3, col: 11 });
    assert_eq!(tokenizer::next_position(start, b'\n'), Position { row: 4, col: 1 });
    assert_eq!(tokenizer::prev_position(Position { row: 3, col: 8 }, b'a'), start);
    assert_eq!(tokenizer::prev_position(Position { row: 3, col: 11 }, b'\t'), start);
    assert_eq!(
        tokenizer::prev_position(Position { row: 4, col: 1 }, b'\n'),
        Position { row: 3, col: 1 }
    );
}
