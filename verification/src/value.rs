//! A structural model of the values the engine returns from metadata
//! queries: the pipeline reads mappings and strings and treats everything
//! else as opaque.

use vstd::prelude::*;

verus! {

/// An engine value as the schema pipeline sees it: a mapping in its
/// iteration order, a string, or an opaque value of some other kind carrying
/// a short label for error reports.
#[derive(Debug)]
pub enum EngineVal {
    /// A string value (the engine serializes definitions as these).
    Strand(String),
    /// A mapping from keys to values, in the engine's iteration order.
    Object(Vec<(String, EngineVal)>),
    /// Any other value; the label says what was observed.
    Other(String),
}

/// The mathematical shape of an [`EngineVal`].
pub enum EngineValV {
    Strand(Seq<char>),
    Object(Seq<(Seq<char>, EngineValV)>),
    Other(Seq<char>),
}

/// The views of a sequence of mapping entries.
pub open spec fn view_entries(entries: Seq<(String, EngineVal)>) -> Seq<(Seq<char>, EngineValV)>
    decreases entries, entries.len(),
{
    if entries.len() == 0 {
        Seq::empty()
    } else {
        seq![(entries[0].0@, entries[0].1@)] + view_entries(entries.drop_first())
    }
}

impl View for EngineVal {
    type V = EngineValV;

    open spec fn view(&self) -> EngineValV
        decreases self,
    {
        match self {
            EngineVal::Strand(s) => EngineValV::Strand(s@),
            EngineVal::Object(entries) => EngineValV::Object(view_entries(entries@)),
            EngineVal::Other(label) => EngineValV::Other(label@),
        }
    }
}

/// Indexing into viewed entries matches viewing the indexed entry.
pub proof fn lemma_view_entries_index(entries: Seq<(String, EngineVal)>, i: int)
    requires
        0 <= i < entries.len(),
    ensures
        view_entries(entries).len() == entries.len(),
        view_entries(entries)[i] == (entries[i].0@, entries[i].1@),
    decreases entries.len(),
{
    if entries.len() > 0 {
        if i > 0 {
            lemma_view_entries_index(entries.drop_first(), i - 1);
            assert(entries.drop_first()[i - 1] == entries[i]);
            let head = seq![(entries[0].0@, entries[0].1@)];
            let rest = view_entries(entries.drop_first());
            assert(view_entries(entries) == head + rest);
            assert((head + rest)[i] == rest[i - 1]);
        } else {
            lemma_view_entries_len(entries.drop_first());
        }
    }
}

/// Viewing entries keeps their number.
pub proof fn lemma_view_entries_len(entries: Seq<(String, EngineVal)>)
    ensures
        view_entries(entries).len() == entries.len(),
    decreases entries.len(),
{
    if entries.len() > 0 {
        lemma_view_entries_len(entries.drop_first());
        assert(view_entries(entries) == seq![(entries[0].0@, entries[0].1@)] + view_entries(
            entries.drop_first(),
        ));
    }
}

/// A short description of a value's kind, for error reports.
pub open spec fn spec_val_label(v: EngineValV) -> Seq<char> {
    match v {
        EngineValV::Strand(_) => "a string value"@,
        EngineValV::Object(_) => "an object value"@,
        EngineValV::Other(label) => label,
    }
}

/// Builds the description that [`spec_val_label`] gives.
pub fn val_label(v: &EngineVal) -> (r: String)
    ensures
        r@ == spec_val_label(v@),
{
    match v {
        EngineVal::Strand(_) => "a string value".to_owned(),
        EngineVal::Object(_) => "an object value".to_owned(),
        EngineVal::Other(label) => label.clone(),
    }
}

/// The first value stored under `key`, if any.
pub open spec fn spec_lookup(entries: Seq<(Seq<char>, EngineValV)>, key: Seq<char>) -> Option<
    EngineValV,
>
    decreases entries.len(),
{
    if entries.len() == 0 {
        None
    } else if entries[0].0 == key {
        Some(entries[0].1)
    } else {
        spec_lookup(entries.drop_first(), key)
    }
}

/// Skipping a prefix free of `key` does not change the lookup.
proof fn lemma_lookup_skip(entries: Seq<(Seq<char>, EngineValV)>, key: Seq<char>, i: int)
    requires
        0 <= i <= entries.len(),
        forall|j: int| 0 <= j < i ==> entries[j].0 != key,
    ensures
        spec_lookup(entries, key) == spec_lookup(entries.subrange(i, entries.len() as int), key),
    decreases i,
{
    if i > 0 {
        assert(entries.drop_first() =~= entries.subrange(1, entries.len() as int));
        lemma_lookup_skip(entries.drop_first(), key, i - 1);
        assert(entries.drop_first().subrange(i - 1, entries.drop_first().len() as int) =~= entries
            .subrange(i, entries.len() as int));
    } else {
        assert(entries.subrange(0, entries.len() as int) =~= entries);
    }
}

/// Finds the first value stored under `key` in a mapping's entries.
pub fn lookup<'a>(entries: &'a Vec<(String, EngineVal)>, key: &str) -> (r: Option<&'a EngineVal>)
    ensures
        match r {
            Some(v) => spec_lookup(view_entries(entries@), key@) == Some(v@),
            None => spec_lookup(view_entries(entries@), key@) is None,
        },
{
    let ghost ventries = view_entries(entries@);
    proof {
        lemma_view_entries_len(entries@);
    }
    let n = entries.len();
    let mut i: usize = 0;
    while i < n
        invariant
            n == entries@.len(),
            ventries == view_entries(entries@),
            ventries.len() == n,
            i <= n,
            forall|j: int| 0 <= j < i ==> ventries[j].0 != key@,
        decreases n - i,
    {
        proof {
            lemma_view_entries_index(entries@, i as int);
        }
        if crate::text::str_eq(entries[i].0.as_str(), key) {
            proof {
                lemma_lookup_skip(ventries, key@, i as int);
                assert(ventries.subrange(i as int, n as int)[0] == ventries[i as int]);
            }
            return Some(&entries[i].1);
        }
        i = i + 1;
    }
    proof {
        lemma_lookup_skip(ventries, key@, n as int);
        assert(ventries.subrange(n as int, n as int).len() == 0);
    }
    None
}

} // verus!
