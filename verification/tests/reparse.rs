//! The definition re-parser: narrowing definition text to the expected
//! statement kind, and the failures on every other shape.

use blackbird::{decode_field_definition, decode_table_definition, Error};

#[test]
fn a_table_definition_decodes() {
    let def = "DEFINE TABLE person SCHEMAFULL".to_string();
    assert!(decode_table_definition(&def).is_ok());
}

#[test]
fn a_field_definition_decodes() {
    let def = "DEFINE FIELD name ON person TYPE string".to_string();
    let fd = decode_field_definition(&def).unwrap();
    assert_eq!(fd.name, "name");
}

#[test]
fn a_field_definition_is_not_a_table_definition() {
    let def = "DEFINE FIELD name ON person TYPE string".to_string();
    match decode_table_definition(&def).unwrap_err() {
        Error::UnexpectedType { expected, got } => {
            assert_eq!(expected, "a table definition");
            assert_eq!(got, "a field definition");
        },
        other => panic!("expected a narrowing failure, got {:?}", other),
    }
}

#[test]
fn a_table_definition_is_not_a_field_definition() {
    let def = "DEFINE TABLE person SCHEMAFULL".to_string();
    match decode_field_definition(&def).unwrap_err() {
        Error::UnexpectedType { expected, got } => {
            assert_eq!(expected, "a field definition");
            assert_eq!(got, "a table definition");
        },
        other => panic!("expected a narrowing failure, got {:?}", other),
    }
}

#[test]
fn a_statement_that_defines_nothing_is_rejected() {
    let def = "SELECT name FROM person".to_string();
    match decode_table_definition(&def).unwrap_err() {
        Error::UnexpectedType { got, .. } => {
            assert_eq!(got, "a statement that defines nothing");
        },
        other => panic!("expected a narrowing failure, got {:?}", other),
    }
}

#[test]
fn another_kind_of_definition_is_rejected() {
    let def = "DEFINE NAMESPACE test_namespace".to_string();
    match decode_field_definition(&def).unwrap_err() {
        Error::UnexpectedType { got, .. } => {
            assert_eq!(got, "a definition of another kind");
        },
        other => panic!("expected a narrowing failure, got {:?}", other),
    }
}

#[test]
fn two_statements_in_one_definition_are_rejected() {
    let def = "DEFINE TABLE a SCHEMAFULL; DEFINE TABLE b SCHEMAFULL;".to_string();
    match decode_table_definition(&def).unwrap_err() {
        Error::ResultCountMismatch { expected, got } => {
            assert_eq!(expected, 1);
            assert_eq!(got, 2);
        },
        other => panic!("expected a count mismatch, got {:?}", other),
    }
}

#[test]
fn unparsable_definition_text_is_rejected() {
    let def = "DEFINE TABLE ;;; nonsense (((".to_string();
    match decode_table_definition(&def).unwrap_err() {
        Error::ParseFailure { source } => assert_eq!(source, def),
        other => panic!("expected a parse failure, got {:?}", other),
    }
}
