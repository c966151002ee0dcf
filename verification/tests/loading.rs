//! Migration loading: file selection, deterministic ordering, and the
//! failure behaviour on unparsable sources.

use blackbird::{is_migration_source, load_migrations, MigrationFile, SchemaCache};

fn file(path: &str, contents: &str) -> MigrationFile {
    MigrationFile { path: path.to_string(), contents: contents.to_string() }
}

#[test]
fn migration_sources_are_recognized_by_extension() {
    assert!(is_migration_source("migrations/1_create_table.sql"));
    assert!(is_migration_source("a.sql"));
    assert!(!is_migration_source("README.md"));
    assert!(!is_migration_source(".sql"));
    assert!(!is_migration_source("migrations/.sql"));
    assert!(!is_migration_source("migrations/schema.sql.bak"));
}

#[test]
fn files_are_applied_in_path_order() {
    let out_of_order = vec![
        file("migrations/3_add_not_null_col.sql", "DEFINE TABLE third SCHEMAFULL;"),
        file("migrations/1_create_table.sql", "DEFINE TABLE first SCHEMAFULL;"),
        file("migrations/2_drop_col.sql", "DEFINE TABLE second SCHEMAFULL;"),
    ];

    let stmts = load_migrations(out_of_order).unwrap();

    assert_eq!(stmts.len(), 3);
    assert!(stmts[0].text.contains("first"));
    assert!(stmts[1].text.contains("second"));
    assert!(stmts[2].text.contains("third"));
}

#[test]
fn loading_is_deterministic_across_listing_orders() {
    let listing_a = vec![
        file("m/2.sql", "DEFINE TABLE b SCHEMAFULL; DEFINE FIELD x ON b TYPE int;"),
        file("m/1.sql", "DEFINE TABLE a SCHEMAFULL;"),
    ];
    let listing_b = vec![
        file("m/1.sql", "DEFINE TABLE a SCHEMAFULL;"),
        file("m/2.sql", "DEFINE TABLE b SCHEMAFULL; DEFINE FIELD x ON b TYPE int;"),
    ];

    let first = load_migrations(listing_a).unwrap();
    let second = load_migrations(listing_b).unwrap();

    assert_eq!(first.len(), second.len());
    for (a, b) in first.iter().zip(second.iter()) {
        assert_eq!(a.text, b.text);
    }
}

#[test]
fn files_without_the_extension_are_ignored() {
    let files = vec![
        file("m/README.txt", "this is not statement text at all"),
        file("m/1_create.sql", "DEFINE TABLE a SCHEMAFULL;"),
    ];

    let stmts = load_migrations(files).unwrap();

    assert_eq!(stmts.len(), 1);
}

#[test]
fn an_unparsable_file_fails_the_load_naming_the_file() {
    let files = vec![
        file("m/1_good.sql", "DEFINE TABLE a SCHEMAFULL;"),
        file("m/2_bad.sql", "DEFINE TABLE ;;; nonsense ((("),
    ];

    let err = load_migrations(files).unwrap_err();

    match err {
        blackbird::Error::ParseFailure { source } => assert_eq!(source, "m/2_bad.sql"),
        other => panic!("expected a parse failure, got {:?}", other),
    }
}

#[test]
fn a_failed_derivation_leaves_no_cache_entry() {
    let path = "m".to_string();
    let files = vec![file("m/1_bad.sql", "DEFINE TABLE ;;; nonsense")];
    let cache = SchemaCache::new();

    let loaded = load_migrations(files);
    assert!(loaded.is_err());
    // Nothing was derived, so nothing is stored: the next request retries.
    assert!(cache.lookup(&path).is_none());
}
