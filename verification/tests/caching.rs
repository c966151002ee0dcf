//! Cache behaviour: a stored derivation answers later lookups of its path,
//! and distinct paths never share entries.

use blackbird::{SchemaCache, TableSchema};

fn schemas(table: &str) -> Vec<TableSchema> {
    vec![TableSchema {
        name: table.to_string(),
        definition: format!("DEFINE TABLE {} SCHEMAFULL", table),
        fields: Vec::new(),
    }]
}

#[test]
fn a_fresh_cache_has_no_entries() {
    let cache = SchemaCache::new();
    assert!(cache.lookup("anywhere").is_none());
}

#[test]
fn a_stored_schema_set_is_found_under_its_path() {
    let mut cache = SchemaCache::new();
    cache.insert("proj/migrations".to_string(), schemas("person"));

    let hit = cache.lookup("proj/migrations").unwrap();
    assert_eq!(hit.len(), 1);
    assert_eq!(hit[0].name, "person");
}

#[test]
fn distinct_paths_never_share_entries() {
    let mut cache = SchemaCache::new();
    cache.insert("proj_a/migrations".to_string(), schemas("person"));

    assert!(cache.lookup("proj_b/migrations").is_none());

    cache.insert("proj_b/migrations".to_string(), schemas("order_line"));
    assert_eq!(cache.lookup("proj_a/migrations").unwrap()[0].name, "person");
    assert_eq!(cache.lookup("proj_b/migrations").unwrap()[0].name, "order_line");
}

#[test]
fn a_later_store_for_the_same_path_wins() {
    let mut cache = SchemaCache::new();
    cache.insert("proj/migrations".to_string(), schemas("person"));
    cache.insert("proj/migrations".to_string(), schemas("account"));

    assert_eq!(cache.lookup("proj/migrations").unwrap()[0].name, "account");
}

#[test]
fn the_computation_runs_at_most_once_per_path() {
    let mut cache = SchemaCache::new();
    let mut computations: usize = 0;

    for _ in 0..2 {
        if cache.lookup("proj/migrations").is_none() {
            computations += 1;
            cache.insert("proj/migrations".to_string(), schemas("person"));
        }
    }

    assert_eq!(computations, 1);
    assert!(cache.lookup("proj/migrations").is_some());
}
