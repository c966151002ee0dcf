//! End-to-end schema derivation against a disposable in-memory engine
//! instance, plus the decoding of metadata responses on constructed values.

use std::collections::BTreeMap;

use blackbird::{derive_schemas, load_migrations, unwrap_single, EngineVal, Error, MigrationFile,
    TableSchema};
use surrealdb_core::dbs::Session;
use surrealdb_core::kvs::Datastore;
use surrealdb_core::sql::{parse, Value};

/// Converts an engine value into the pipeline's model of it.
fn engine_val(v: &Value) -> EngineVal {
    match v {
        Value::Strand(s) => EngineVal::Strand(s.0.clone()),
        Value::Object(o) => EngineVal::Object(
            o.0.iter().map(|(k, inner)| (k.clone(), engine_val(inner))).collect(),
        ),
        other => EngineVal::Other(format!("{:?}", other)),
    }
}

async fn run(
    ds: &Datastore,
    sess: &Session,
    sql: &str,
) -> Vec<Result<EngineVal, String>> {
    let ast = parse(sql).unwrap();
    let vars: Option<BTreeMap<String, Value>> = None;
    match ds.process(ast, sess, vars).await {
        Ok(responses) => responses
            .into_iter()
            .map(|r| r.result.map(|v| engine_val(&v)).map_err(|e| e.to_string()))
            .collect(),
        Err(e) => vec![Err(e.to_string())],
    }
}

/// Extracts a key from a mapping-shaped model value, renaming it: the
/// engine names the catalog keys `tables` and `fields`; the schema
/// protocol names them `tb` and `fd`.
fn renamed(resp: Result<EngineVal, String>, from: &str, to: &str) -> Result<EngineVal, String> {
    resp.map(|v| match v {
        EngineVal::Object(entries) => EngineVal::Object(
            entries
                .into_iter()
                .map(|(k, inner)| if k == from { (to.to_string(), inner) } else { (k, inner) })
                .collect(),
        ),
        other => other,
    })
}

/// Applies migration statements to a fresh in-memory engine instance and
/// derives the schema set from its catalog metadata.
async fn derive_from_migrations(statements: &[String]) -> Result<Vec<TableSchema>, Error> {
    let ds = Datastore::new("memory").await.unwrap().with_strict_mode(true);

    run(&ds, &Session::owner(), "DEFINE NAMESPACE test_namespace").await;
    run(&ds, &Session::owner().with_ns("test_namespace"), "DEFINE DATABASE test_database").await;
    let sess = Session::owner().with_ns("test_namespace").with_db("test_database");

    for stmt in statements {
        let results = run(&ds, &sess, stmt).await;
        blackbird::require_all_ok(&results.iter().map(clone_result).collect())?;
    }

    let db_info = run(&ds, &sess, "INFO FOR DB")
        .await
        .into_iter()
        .map(|r| renamed(r, "tables", "tb"))
        .collect::<Vec<_>>();

    let db_val = unwrap_single(db_info.iter().map(clone_result).collect())?;
    let tables = blackbird::tables_from_info(&db_val)?;

    let mut field_resps = Vec::new();
    for t in &tables {
        let resp = run(&ds, &sess, &format!("INFO FOR TABLE {}", t.name)).await;
        let single = unwrap_single(resp)?;
        field_resps.push(renamed(Ok(single), "fields", "fd"));
    }

    derive_schemas(db_info, field_resps)
}

fn clone_result(r: &Result<EngineVal, String>) -> Result<EngineVal, String> {
    match r {
        Ok(v) => Ok(clone_val(v)),
        Err(e) => Err(e.clone()),
    }
}

fn clone_val(v: &EngineVal) -> EngineVal {
    match v {
        EngineVal::Strand(s) => EngineVal::Strand(s.clone()),
        EngineVal::Object(entries) => EngineVal::Object(
            entries.iter().map(|(k, inner)| (k.clone(), clone_val(inner))).collect(),
        ),
        EngineVal::Other(label) => EngineVal::Other(label.clone()),
    }
}

fn block_on<F: std::future::Future>(fut: F) -> F::Output {
    tokio::runtime::Builder::new_current_thread().enable_all().build().unwrap().block_on(fut)
}

fn person_migrations() -> Vec<String> {
    let files = vec![
        MigrationFile {
            path: "m/1_create_table.sql".to_string(),
            contents: "DEFINE TABLE person SCHEMAFULL; DEFINE FIELD name ON person TYPE string \
                ASSERT $value != NONE;"
                .to_string(),
        },
        MigrationFile {
            path: "m/2_add_username.sql".to_string(),
            contents: "DEFINE FIELD username ON person TYPE string;".to_string(),
        },
    ];
    load_migrations(files).unwrap().into_iter().map(|s| s.text).collect()
}

#[test]
fn derived_schema_names_fields_kinds_and_nullability() {
    let schemas = block_on(derive_from_migrations(&person_migrations())).unwrap();

    assert_eq!(schemas.len(), 1);
    let person = &schemas[0];
    assert_eq!(person.name, "person");
    assert_eq!(person.fields.len(), 2);

    let name = person.fields.iter().find(|f| f.name == "name").unwrap();
    assert_eq!(name.kind.as_deref(), Some("string"));
    assert!(!name.nullable);

    let username = person.fields.iter().find(|f| f.name == "username").unwrap();
    assert_eq!(username.kind.as_deref(), Some("string"));
    assert!(username.nullable);

    let record = blackbird::generate(&"person".to_string(), &schemas).unwrap();
    assert_eq!(record.fields.len(), 2);
    let rec_name = record.fields.iter().find(|f| f.name == "name").unwrap();
    assert!(!rec_name.optional);
    assert!(matches!(rec_name.target, blackbird::TargetType::Text));
    let rec_username = record.fields.iter().find(|f| f.name == "username").unwrap();
    assert!(rec_username.optional);
    assert!(matches!(rec_username.target, blackbird::TargetType::Text));
}

#[test]
fn rederivation_from_fresh_instances_is_structurally_equal() {
    let migrations = person_migrations();
    let first = block_on(derive_from_migrations(&migrations)).unwrap();
    let second = block_on(derive_from_migrations(&migrations)).unwrap();

    assert_eq!(first.len(), second.len());
    for (a, b) in first.iter().zip(second.iter()) {
        assert_eq!(a.name, b.name);
        assert_eq!(a.fields.len(), b.fields.len());
        for (fa, fb) in a.fields.iter().zip(b.fields.iter()) {
            assert_eq!(fa.name, fb.name);
            assert_eq!(fa.kind, fb.kind);
            assert_eq!(fa.nullable, fb.nullable);
        }
    }
}

#[test]
fn a_schema_renders_as_its_definition_texts() {
    let schemas = block_on(derive_from_migrations(&person_migrations())).unwrap();
    let rendered = schemas[0].render();

    let mut expected = format!("{};\n", schemas[0].definition);
    for f in &schemas[0].fields {
        expected.push_str(&format!("{};\n", f.definition));
    }
    assert_eq!(rendered, expected);
    assert!(rendered.contains("DEFINE TABLE person"));
    assert!(rendered.contains("DEFINE FIELD name ON person"));
}

#[test]
fn a_single_result_is_unwrapped_and_counts_are_checked() {
    let one = vec![Ok(EngineVal::Strand("x".to_string()))];
    assert!(unwrap_single(one).is_ok());

    let none: Vec<Result<EngineVal, String>> = Vec::new();
    match unwrap_single(none).unwrap_err() {
        Error::ResultCountMismatch { expected, got } => {
            assert_eq!(expected, 1);
            assert_eq!(got, 0);
        },
        other => panic!("expected a count mismatch, got {:?}", other),
    }

    let two = vec![Ok(EngineVal::Other("a".to_string())), Ok(EngineVal::Other("b".to_string()))];
    match unwrap_single(two).unwrap_err() {
        Error::ResultCountMismatch { expected, got } => {
            assert_eq!(expected, 1);
            assert_eq!(got, 2);
        },
        other => panic!("expected a count mismatch, got {:?}", other),
    }

    let failed: Vec<Result<EngineVal, String>> = vec![Err("boom".to_string())];
    match unwrap_single(failed).unwrap_err() {
        Error::EngineFailure { message } => assert_eq!(message, "boom"),
        other => panic!("expected an engine failure, got {:?}", other),
    }
}

#[test]
fn a_response_without_the_table_key_is_a_shape_failure() {
    let resp = EngineVal::Object(vec![(
        "users".to_string(),
        EngineVal::Object(Vec::new()),
    )]);

    match blackbird::tables_from_info(&resp).unwrap_err() {
        Error::MissingExpectedKey { key } => assert_eq!(key, "tb"),
        other => panic!("expected a missing key, got {:?}", other),
    }
}

#[test]
fn a_non_mapping_response_is_a_shape_failure() {
    let resp = EngineVal::Other("Array".to_string());

    match blackbird::tables_from_info(&resp).unwrap_err() {
        Error::UnexpectedType { got, .. } => assert_eq!(got, "Array"),
        other => panic!("expected a shape failure, got {:?}", other),
    }
}
