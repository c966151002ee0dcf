//! Nullability classification: the decoded assertion shapes and the one
//! narrow pattern the classifier recognizes.

use blackbird::define::AssertShape;
use blackbird::schema::is_nullable;
use blackbird::FieldDef;

fn decode(def: &str) -> FieldDef {
    blackbird::decode_field_definition(&def.to_string()).unwrap()
}

#[test]
fn test_is_nullable_non_nullable_field() {
    let statement = r#"DEFINE FIELD name ON person TYPE string ASSERT $value != NONE;"#;
    let fdef = decode(statement);

    assert!(!is_nullable(&fdef));
}

#[test]
fn test_is_nullable_nullable_field() {
    let statement = r#"DEFINE FIELD name ON person TYPE string"#;
    let fdef = decode(statement);

    assert!(is_nullable(&fdef));
}

#[test]
fn reversed_not_none_comparison_is_non_nullable() {
    let fdef = decode(r#"DEFINE FIELD name ON person TYPE string ASSERT NONE != $value"#);

    assert!(!is_nullable(&fdef));
}

#[test]
fn degenerate_sentinel_comparison_stays_nullable() {
    // The sentinel compared with itself says nothing about the field.
    let fdef = FieldDef {
        name: "name".to_string(),
        kind: Some("string".to_string()),
        assert: AssertShape::Binary { not_equal: true, left_none: true, right_none: true },
    };

    assert!(is_nullable(&fdef));
}

#[test]
fn other_operator_stays_nullable() {
    let fdef = decode(r#"DEFINE FIELD name ON person TYPE string ASSERT $value = "john""#);

    assert!(is_nullable(&fdef));
}

#[test]
fn comparison_without_sentinel_stays_nullable() {
    let fdef = decode(r#"DEFINE FIELD name ON person TYPE string ASSERT $value != "john""#);

    assert!(is_nullable(&fdef));
}

#[test]
fn conjunction_stays_nullable() {
    // The classifier recognizes a single comparison only; it does not
    // descend into conjunctions.
    let fdef =
        decode(r#"DEFINE FIELD name ON person TYPE string ASSERT $value != NONE AND $value != """#);

    assert!(is_nullable(&fdef));
}

#[test]
fn decoded_kind_is_canonical() {
    let fdef = decode(r#"DEFINE FIELD name ON person TYPE string"#);

    assert_eq!(fdef.name, "name");
    assert_eq!(fdef.kind.as_deref(), Some("string"));
    assert!(matches!(fdef.assert, AssertShape::Absent));
}
