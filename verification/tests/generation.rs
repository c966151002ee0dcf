//! Record-type generation: table lookup, the kind-to-target mapping, and
//! the optional wrapper for nullable fields.

use blackbird::define::AssertShape;
use blackbird::{generate, Error, FieldSchema, TableSchema, TargetType};

fn field(name: &str, kind: Option<&str>, nullable: bool) -> FieldSchema {
    FieldSchema {
        name: name.to_string(),
        definition: format!("DEFINE FIELD {} ON person", name),
        kind: kind.map(|k| k.to_string()),
        nullable,
        assert: AssertShape::Absent,
    }
}

fn person_table(fields: Vec<FieldSchema>) -> Vec<TableSchema> {
    vec![TableSchema {
        name: "person".to_string(),
        definition: "DEFINE TABLE person SCHEMAFULL".to_string(),
        fields,
    }]
}

#[test]
fn test_can_use_struct() {
    let name_def = "DEFINE FIELD name ON person TYPE string".to_string();
    let username_def =
        "DEFINE FIELD username ON person TYPE string ASSERT $value != NONE".to_string();
    let name_field = blackbird::schema::field_schema_from_definition(&name_def).unwrap();
    let username_field = blackbird::schema::field_schema_from_definition(&username_def).unwrap();
    let schemas = person_table(vec![name_field, username_field]);

    let record = generate(&"Person".to_string(), &schemas).unwrap();

    assert_eq!(record.record_name, "Person");
    assert_eq!(record.fields.len(), 2);
    assert_eq!(record.fields[0].name, "name");
    assert!(record.fields[0].optional);
    assert!(matches!(record.fields[0].target, TargetType::Text));
    assert_eq!(record.fields[1].name, "username");
    assert!(!record.fields[1].optional);

    // A value of the generated record shape.
    let p_name: Option<String> = Some("john".to_string());
    let p_username: String = "big_j".to_string();
    assert_eq!(p_name.unwrap(), "john");
    assert_eq!(p_username, "big_j");
}

#[test]
fn required_and_optional_string_fields() {
    let schemas =
        person_table(vec![field("name", Some("string"), false), field(
            "nickname",
            Some("string"),
            true,
        )]);

    let record = generate(&"person".to_string(), &schemas).unwrap();

    assert_eq!(record.fields.len(), 2);
    assert!(matches!(record.fields[0].target, TargetType::Text));
    assert!(!record.fields[0].optional);
    assert!(matches!(record.fields[1].target, TargetType::Text));
    assert!(record.fields[1].optional);
}

#[test]
fn every_supported_kind_maps_to_its_target() {
    let schemas = person_table(vec![
        field("a", Some("bool"), false),
        field("b", Some("float"), false),
        field("c", Some("int"), false),
        field("d", Some("string"), false),
    ]);

    let record = generate(&"person".to_string(), &schemas).unwrap();

    assert!(matches!(record.fields[0].target, TargetType::Bool));
    assert!(matches!(record.fields[1].target, TargetType::Float64));
    assert!(matches!(record.fields[2].target, TargetType::Int64));
    assert!(matches!(record.fields[3].target, TargetType::Text));
}

#[test]
fn lookup_is_case_insensitive() {
    let schemas = person_table(vec![field("name", Some("string"), false)]);

    assert!(generate(&"PERSON".to_string(), &schemas).is_ok());
    assert!(generate(&"PeRsOn".to_string(), &schemas).is_ok());
}

#[test]
fn an_unknown_table_fails_before_generation() {
    let schemas = person_table(vec![field("name", Some("string"), false)]);

    let err = generate(&"order_line".to_string(), &schemas).unwrap_err();

    match err {
        Error::TableNotFound { table } => assert_eq!(table, "order_line"),
        other => panic!("expected a missing table, got {:?}", other),
    }
}

#[test]
fn two_matching_tables_are_ambiguous() {
    let mut schemas = person_table(vec![field("name", Some("string"), false)]);
    schemas.push(TableSchema {
        name: "PERSON".to_string(),
        definition: "DEFINE TABLE PERSON SCHEMAFULL".to_string(),
        fields: Vec::new(),
    });

    let err = generate(&"person".to_string(), &schemas).unwrap_err();

    assert!(matches!(err, Error::AmbiguousTable { .. }));
}

#[test]
fn a_field_without_a_kind_fails_generation() {
    let schemas = person_table(vec![field("mystery", None, true)]);

    let err = generate(&"person".to_string(), &schemas).unwrap_err();

    match err {
        Error::UntypedField { field, kind } => {
            assert_eq!(field, "mystery");
            assert!(kind.is_none());
        },
        other => panic!("expected an untyped field, got {:?}", other),
    }
}

#[test]
fn an_unsupported_kind_fails_generation_naming_it() {
    let schemas = person_table(vec![field("when", Some("datetime"), false)]);

    let err = generate(&"person".to_string(), &schemas).unwrap_err();

    match err {
        Error::UntypedField { field, kind } => {
            assert_eq!(field, "when");
            assert_eq!(kind.as_deref(), Some("datetime"));
        },
        other => panic!("expected an untyped field, got {:?}", other),
    }
}
