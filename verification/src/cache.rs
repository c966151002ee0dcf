//! Memoizing derived schemas by migration source path.
//!
//! The cache is an explicit object handed into the pipeline by whoever owns
//! it; a derivation is stored under its canonical source path and never
//! invalidated: migration sources are assumed immutable for the cache's
//! lifetime. Failed derivations are never stored, so a failure is retried
//! on the next request.

use vstd::prelude::*;

use crate::schema::{view_tables, TableSchema, TableSchemaV};
use crate::text::str_eq;

verus! {

/// A schema cache: derived schema sets keyed by migration source path.
#[derive(Debug)]
pub struct SchemaCache {
    entries: Vec<(String, Vec<TableSchema>)>,
}

/// First-match association lookup over the cache's entries.
pub open spec fn spec_assoc(
    entries: Seq<(Seq<char>, Seq<TableSchemaV>)>,
    key: Seq<char>,
) -> Option<Seq<TableSchemaV>>
    decreases entries.len(),
{
    if entries.len() == 0 {
        None
    } else if entries[0].0 == key {
        Some(entries[0].1)
    } else {
        spec_assoc(entries.drop_first(), key)
    }
}

/// The views of the cache's entries.
spec fn view_cache_entries(v: Seq<(String, Vec<TableSchema>)>) -> Seq<
    (Seq<char>, Seq<TableSchemaV>),
> {
    Seq::new(v.len(), |i: int| (v[i].0@, view_tables(v[i].1@)))
}

impl SchemaCache {
    /// The schema set stored under a path, if one is stored.
    pub closed spec fn spec_get(self, key: Seq<char>) -> Option<Seq<TableSchemaV>> {
        spec_assoc(view_cache_entries(self.entries@), key)
    }

    /// An empty cache: no path has an entry.
    pub fn new() -> (r: SchemaCache)
        ensures
            forall|k: Seq<char>| r.spec_get(k) is None,
    {
        let c = SchemaCache { entries: Vec::new() };
        proof {
            assert(forall|k: Seq<char>| c.spec_get(k) is None);
        }
        c
    }

    /// The schema set stored under `path`, if this cache holds one. A hit
    /// means the derivation for that path need not run again.
    pub fn lookup<'a>(&'a self, path: &str) -> (r: Option<&'a Vec<TableSchema>>)
        ensures
            match r {
                Some(v) => self.spec_get(path@) == Some(view_tables(v@)),
                None => self.spec_get(path@) is None,
            },
    {
        let ghost ventries = view_cache_entries(self.entries@);
        let n = self.entries.len();
        let mut i: usize = 0;
        while i < n
            invariant
                n == self.entries@.len(),
                ventries == view_cache_entries(self.entries@),
                i <= n,
                forall|j: int| 0 <= j < i ==> (#[trigger] ventries[j]).0 != path@,
            decreases n - i,
        {
            if str_eq(self.entries[i].0.as_str(), path) {
                proof {
                    lemma_assoc_skip(ventries, path@, i as int);
                    assert(ventries.subrange(i as int, n as int)[0] == ventries[i as int]);
                }
                return Some(&self.entries[i].1);
            }
            i = i + 1;
        }
        proof {
            lemma_assoc_skip(ventries, path@, n as int);
            assert(ventries.subrange(n as int, n as int).len() == 0);
        }
        None
    }

    /// Stores a derived schema set under a path. The path's entry becomes
    /// the stored set — a later store for the same path wins — and no other
    /// path's entry changes.
    pub fn insert(&mut self, path: String, schemas: Vec<TableSchema>)
        ensures
            forall|k: Seq<char>|
                final(self).spec_get(k) == (if k == path@ {
                    Some(view_tables(schemas@))
                } else {
                    old(self).spec_get(k)
                }),
    {
        let ghost prev = view_cache_entries(self.entries@);
        self.entries.insert(0, (path, schemas));
        proof {
            let now = view_cache_entries(self.entries@);
            assert forall|k: Seq<char>|
                self.spec_get(k) == (if k == path@ {
                    Some(view_tables(schemas@))
                } else {
                    spec_assoc(prev, k)
                }) by {
                assert(now[0] == (path@, view_tables(schemas@)));
                assert(now.drop_first() =~= prev);
            }
        }
    }
}

/// Skipping a prefix free of `key` does not change an association lookup.
proof fn lemma_assoc_skip(entries: Seq<(Seq<char>, Seq<TableSchemaV>)>, key: Seq<char>, i: int)
    requires
        0 <= i <= entries.len(),
        forall|j: int| 0 <= j < i ==> (#[trigger] entries[j]).0 != key,
    ensures
        spec_assoc(entries, key) == spec_assoc(entries.subrange(i, entries.len() as int), key),
    decreases i,
{
    if i > 0 {
        assert(entries.drop_first() =~= entries.subrange(1, entries.len() as int));
        lemma_assoc_skip(entries.drop_first(), key, i - 1);
        assert(entries.drop_first().subrange(i - 1, entries.drop_first().len() as int) =~= entries
            .subrange(i, entries.len() as int));
    } else {
        assert(entries.subrange(0, entries.len() as int) =~= entries);
    }
}

/// A stored entry answers every later lookup of its path — the derivation
/// behind it need never run twice — and lookups of any other path see
/// exactly what they saw before the store: distinct paths never share an
/// entry.
pub proof fn lemma_cache_correctness(
    before: SchemaCache,
    after: SchemaCache,
    path: Seq<char>,
    stored: Seq<TableSchemaV>,
)
    requires
        forall|k: Seq<char>|
            after.spec_get(k) == (if k == path {
                Some(stored)
            } else {
                before.spec_get(k)
            }),
    ensures
        after.spec_get(path) == Some(stored),
        forall|k: Seq<char>| k != path ==> after.spec_get(k) == before.spec_get(k),
{
}

} // verus!
