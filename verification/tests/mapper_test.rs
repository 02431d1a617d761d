use rust::evaluator::to_cpp::{
    get_library, init_std_names, init_types, std_names_from_records, translate_type,
    types_from_records, MappingError,
};
use rust::tokenizer::{Position, Token, TokenInfo};

fn token(kind: Token, lexeme: &str) -> TokenInfo {
    TokenInfo { token: kind, lexeme: String::from(lexeme), start_position: Position { row: 1, col: 1 } }
}

fn record(fields: &[&str]) -> Option<Vec<String>> {
    Some(fields.iter().map(|f| String::from(*f)).collect())
}

#[test]
fn lookup_is_by_exact_name() {
    let types = init_types("types.csv", b"a;b;c\ni32;int32_t;cstdint\nString;std::string;string\n").unwrap();
    let info = translate_type(&token(Token::Identifier, "i32"), &types).unwrap();
    assert_eq!(info.name, "int32_t");
    assert_eq!(info.library, "cstdint");
    assert!(translate_type(&token(Token::Identifier, "I32"), &types).is_none());
    assert!(translate_type(&token(Token::Identifier, "i3"), &types).is_none());
    assert!(translate_type(&token(Token::Identifier, ""), &types).is_none());
}

#[test]
fn only_identifiers_are_translated() {
    let types = init_types("types.csv", b"a;b;c\ni32;int32_t;cstdint\n").unwrap();
    assert!(translate_type(&token(Token::Number, "i32"), &types).is_none());
    assert!(translate_type(&token(Token::String, "i32"), &types).is_none());
}

#[test]
fn last_entry_of_a_name_counts() {
    let types = init_types("types.csv", b"a;b;c\nx;first;one\ny;other;two\nx;second;three\n").unwrap();
    let info = translate_type(&token(Token::Identifier, "x"), &types).unwrap();
    assert_eq!(info.name, "second");
    assert_eq!(info.library, "three");
    let std_names = init_std_names("functions.csv", b"a;b\nstd::f;one\nstd::f;two\n").unwrap();
    assert_eq!(get_library("std::f", &std_names).unwrap(), "two");
}

#[test]
fn library_of_a_std_name() {
    let std_names = init_std_names("functions.csv", b"name;library\nstd::println;print\n").unwrap();
    assert_eq!(get_library("std::println", &std_names).unwrap(), "print");
    assert!(get_library("println", &std_names).is_none());
    assert!(get_library("std::print", &std_names).is_none());
}

#[test]
fn header_row_is_no_entry() {
    let types = init_types("types.csv", b"i32;int32_t;cstdint\n").unwrap();
    assert_eq!(types.entries.len(), 0);
    let types = init_types("types.csv", b"").unwrap();
    assert_eq!(types.entries.len(), 0);
}

#[test]
fn fields_are_split_at_semicolons_only() {
    let types = init_types("types.csv", b"a;b;c\nmy type;long, long;a b\n").unwrap();
    assert_eq!(types.entries[0].key, "my type");
    assert_eq!(types.entries[0].info.name, "long, long");
    assert_eq!(types.entries[0].info.library, "a b");
}

#[test]
fn row_of_another_width_is_malformed() {
    match init_types("types.csv", b"a;b;c\ni32;int32_t;cstdint\nu8;uint8_t\n") {
        Err(MappingError::MalformedRow(path, row)) => {
            assert_eq!(path, "types.csv");
            assert_eq!(row, 2);
        }
        other => panic!("{:?}", other),
    }
}

#[test]
fn row_with_too_few_fields_is_malformed() {
    match init_types("t.csv", b"a;b\ni32;int32_t\n") {
        Err(MappingError::MalformedRow(path, row)) => {
            assert_eq!(path, "t.csv");
            assert_eq!(row, 1);
        }
        other => panic!("{:?}", other),
    }
    match init_std_names("f.csv", b"a\nstd::println\n") {
        Err(MappingError::MalformedRow(path, row)) => {
            assert_eq!(path, "f.csv");
            assert_eq!(row, 1);
        }
        other => panic!("{:?}", other),
    }
}

#[test]
fn row_that_is_no_text_is_malformed() {
    match init_std_names("f.csv", b"a;b\nx;y\n\xff;z\n") {
        Err(MappingError::MalformedRow(_, row)) => assert_eq!(row, 2),
        other => panic!("{:?}", other),
    }
}

#[test]
fn tables_from_records() {
    let records = vec![record(&["a", "b", "c"]), record(&["d", "e", "f", "g"])];
    let types = types_from_records("p", &records).unwrap();
    assert_eq!(types.entries.len(), 2);
    assert_eq!(types.entries[1].key, "d");
    assert_eq!(types.entries[1].info.name, "e");
    assert_eq!(types.entries[1].info.library, "f");
    let std_names = std_names_from_records("p", &records).unwrap();
    assert_eq!(std_names.entries[0].key, "a");
    assert_eq!(std_names.entries[0].library, "b");

    let records = vec![record(&["a", "b", "c"]), None, record(&["d"])];
    assert!(matches!(types_from_records("p", &records), Err(MappingError::MalformedRow(_, 2))));
    let records = vec![record(&["a", "b"]), record(&["d"]), None];
    assert!(matches!(std_names_from_records("p", &records), Err(MappingError::MalformedRow(_, 2))));
    assert!(matches!(types_from_records("p", &records), Err(MappingError::MalformedRow(_, 1))));
}

#[test]
fn mapping_errors_are_reported() {
    assert_eq!(
        init_types("types.csv", b"a;b;c\nx;y;z\nbad\n").unwrap_err().to_string(),
        "Mapping error: malformed row 2 in types.csv"
    );
    assert_eq!(
        MappingError::OpenFailed(String::from("functions.csv")).to_string(),
        "Mapping error: cannot open functions.csv"
    );
}
