//! Mapping a derived table schema to a generated record type: one record
//! field per schema field, each engine type kind resolved to a target
//! primitive and wrapped in an optional container when the field is
//! nullable.

use vstd::prelude::*;

use crate::error::{Error, ErrorV};
use crate::schema::{view_tables, FieldSchema, FieldSchemaV, TableSchema, TableSchemaV};
use crate::text::{eq_ignore_case, str_eq, str_eq_ignore_case};

verus! {

/// A target-language primitive a field's engine type kind resolves to.
#[derive(Clone, Copy, Debug, PartialEq, Eq, Structural)]
pub enum TargetType {
    /// A boolean.
    Bool,
    /// A 64-bit floating-point number.
    Float64,
    /// A 64-bit signed integer.
    Int64,
    /// An owned string.
    Text,
}

/// One field of a generated record type.
#[derive(Debug)]
pub struct GeneratedField {
    pub name: String,
    pub target: TargetType,
    pub optional: bool,
}

/// The mathematical shape of a [`GeneratedField`].
pub struct GeneratedFieldV {
    pub name: Seq<char>,
    pub target: TargetType,
    pub optional: bool,
}

impl View for GeneratedField {
    type V = GeneratedFieldV;

    open spec fn view(&self) -> GeneratedFieldV {
        GeneratedFieldV { name: self.name@, target: self.target, optional: self.optional }
    }
}

/// A generated record type: the requested type name and one field per
/// schema field, in schema order. A build-time artifact only.
#[derive(Debug)]
pub struct GeneratedRecordType {
    pub record_name: String,
    pub fields: Vec<GeneratedField>,
}

/// The mathematical shape of a [`GeneratedRecordType`].
pub struct GeneratedRecordTypeV {
    pub record_name: Seq<char>,
    pub fields: Seq<GeneratedFieldV>,
}

impl View for GeneratedRecordType {
    type V = GeneratedRecordTypeV;

    open spec fn view(&self) -> GeneratedRecordTypeV {
        GeneratedRecordTypeV {
            record_name: self.record_name@,
            fields: Seq::new(self.fields@.len(), |i: int| self.fields@[i]@),
        }
    }
}

/// The views of a sequence of generated fields.
pub open spec fn view_gen_fields(v: Seq<GeneratedField>) -> Seq<GeneratedFieldV> {
    Seq::new(v.len(), |i: int| v[i]@)
}

/// The fixed mapping from an engine type kind, in its canonical spelling,
/// to a target type. Every kind outside this table is unsupported.
pub open spec fn spec_target_for_kind(kind: Seq<char>) -> Option<TargetType> {
    if kind == "bool"@ {
        Some(TargetType::Bool)
    } else if kind == "float"@ {
        Some(TargetType::Float64)
    } else if kind == "int"@ {
        Some(TargetType::Int64)
    } else if kind == "string"@ {
        Some(TargetType::Text)
    } else {
        None
    }
}

/// Resolves an engine type kind to a target type.
pub fn target_for_kind(kind: &String) -> (r: Option<TargetType>)
    ensures
        r == spec_target_for_kind(kind@),
{
    if str_eq(kind.as_str(), "bool") {
        Some(TargetType::Bool)
    } else if str_eq(kind.as_str(), "float") {
        Some(TargetType::Float64)
    } else if str_eq(kind.as_str(), "int") {
        Some(TargetType::Int64)
    } else if str_eq(kind.as_str(), "string") {
        Some(TargetType::Text)
    } else {
        None
    }
}

/// The generated field for one schema field: its kind must be declared and
/// supported; the target type is wrapped in an optional container exactly
/// when the field is nullable. A field with no declared kind, or an
/// unsupported kind, fails generation, naming the field and the kind.
pub open spec fn spec_generated_field(f: FieldSchemaV) -> Result<GeneratedFieldV, ErrorV> {
    match f.kind {
        None => Err(ErrorV::UntypedField { field: f.name, kind: None }),
        Some(k) => match spec_target_for_kind(k) {
            None => Err(ErrorV::UntypedField { field: f.name, kind: Some(k) }),
            Some(t) => Ok(GeneratedFieldV { name: f.name, target: t, optional: f.nullable }),
        },
    }
}

/// Builds the generated field for one schema field.
fn generated_field(f: &FieldSchema) -> (r: Result<GeneratedField, Error>)
    ensures
        r matches Ok(g) ==> (spec_generated_field(f@) matches Ok(gv) && g@ == gv),
        r matches Err(e) ==> (spec_generated_field(f@) matches Err(ev) && e@ == ev),
{
    match &f.kind {
        None => Err(Error::UntypedField { field: f.name.clone(), kind: None }),
        Some(k) => match target_for_kind(k) {
            None => Err(Error::UntypedField { field: f.name.clone(), kind: Some(k.clone()) }),
            Some(t) => Ok(GeneratedField { name: f.name.clone(), target: t, optional: f.nullable }),
        },
    }
}

/// The generated fields for a schema's fields, in schema order; the first
/// failing field aborts generation.
pub open spec fn spec_generated_fields(fs: Seq<FieldSchemaV>) -> Result<Seq<GeneratedFieldV>, ErrorV>
    decreases fs.len(),
{
    if fs.len() == 0 {
        Ok(Seq::empty())
    } else {
        match spec_generated_field(fs[0]) {
            Err(e) => Err(e),
            Ok(g) => match spec_generated_fields(fs.drop_first()) {
                Err(e) => Err(e),
                Ok(rest) => Ok(seq![g] + rest),
            },
        }
    }
}

/// A generated prefix followed by the rest of a generation.
spec fn splice_gen(
    acc: Seq<GeneratedFieldV>,
    rest: Result<Seq<GeneratedFieldV>, ErrorV>,
) -> Result<Seq<GeneratedFieldV>, ErrorV> {
    match rest {
        Ok(gs) => Ok(acc + gs),
        Err(e) => Err(e),
    }
}

/// Builds the generated fields for a schema's fields.
fn generated_fields(fields: &Vec<FieldSchema>) -> (r: Result<Vec<GeneratedField>, Error>)
    ensures
        r matches Ok(v) ==> (spec_generated_fields(crate::schema::view_fields(fields@)) matches Ok(
            sv,
        ) && view_gen_fields(v@) == sv),
        r matches Err(e) ==> (spec_generated_fields(crate::schema::view_fields(fields@)) matches Err(
            ev,
        ) && e@ == ev),
{
    let ghost vfields = crate::schema::view_fields(fields@);
    let n = fields.len();
    let mut acc: Vec<GeneratedField> = Vec::new();
    let mut i: usize = 0;
    proof {
        assert(vfields.subrange(0, n as int) =~= vfields);
        match spec_generated_fields(vfields) {
            Ok(all) => {
                assert(view_gen_fields(acc@) + all =~= all);
            },
            Err(_) => {},
        }
    }
    while i < n
        invariant
            n == fields@.len(),
            vfields == crate::schema::view_fields(fields@),
            vfields.len() == n,
            i <= n,
            spec_generated_fields(vfields) == splice_gen(
                view_gen_fields(acc@),
                spec_generated_fields(vfields.subrange(i as int, n as int)),
            ),
        decreases n - i,
    {
        let ghost sub = vfields.subrange(i as int, n as int);
        proof {
            assert(sub[0] == vfields[i as int]);
            assert(vfields[i as int] == fields@[i as int]@);
        }
        let g = match generated_field(&fields[i]) {
            Ok(g) => g,
            Err(e) => {
                proof {
                    assert(spec_generated_fields(sub) matches Err(ev) && ev == e@);
                }
                return Err(e);
            },
        };
        proof {
            assert(spec_generated_field(sub[0]) matches Ok(gv) && gv == g@);
            assert(sub.drop_first() =~= vfields.subrange(i + 1, n as int));
        }
        let ghost prev = acc@;
        acc.push(g);
        proof {
            assert(view_gen_fields(acc@) =~= view_gen_fields(prev).push(g@));
            match spec_generated_fields(sub.drop_first()) {
                Err(_) => {},
                Ok(rest) => {
                    assert(spec_generated_fields(sub) matches Ok(gs) && gs == seq![g@] + rest);
                    assert(view_gen_fields(prev) + (seq![g@] + rest) =~= view_gen_fields(prev).push(
                        g@,
                    ) + rest);
                },
            }
        }
        i = i + 1;
    }
    proof {
        assert(vfields.subrange(n as int, n as int).len() == 0);
        match spec_generated_fields(vfields) {
            Ok(all) => {
                assert(view_gen_fields(acc@) + Seq::<GeneratedFieldV>::empty() =~= view_gen_fields(
                    acc@,
                ));
            },
            Err(_) => {},
        }
    }
    Ok(acc)
}

/// The tables whose name matches the requested name up to ASCII case, in
/// schema-set order.
pub open spec fn spec_matching(name: Seq<char>, tables: Seq<TableSchemaV>) -> Seq<TableSchemaV>
    decreases tables.len(),
{
    if tables.len() == 0 {
        Seq::empty()
    } else {
        let rest = spec_matching(name, tables.drop_first());
        if eq_ignore_case(name, tables[0].name) {
            seq![tables[0]] + rest
        } else {
            rest
        }
    }
}

/// What generating a record type for a table name yields: exactly one table
/// must match the name up to ASCII case — no match is `TableNotFound`, more
/// than one is `AmbiguousTable` — and every field of that table must
/// resolve to a target type.
pub open spec fn spec_generate(name: Seq<char>, tables: Seq<TableSchemaV>) -> Result<
    GeneratedRecordTypeV,
    ErrorV,
> {
    let matching = spec_matching(name, tables);
    if matching.len() == 0 {
        Err(ErrorV::TableNotFound { table: name })
    } else if matching.len() > 1 {
        Err(ErrorV::AmbiguousTable { table: name })
    } else {
        match spec_generated_fields(matching[0].fields) {
            Err(e) => Err(e),
            Ok(gfs) => Ok(GeneratedRecordTypeV { record_name: name, fields: gfs }),
        }
    }
}

/// Generates the record type for a table of the derived schema set, looked
/// up by name case-insensitively. Fails before anything is generated when
/// no table, or more than one, matches, or when a field has no supported
/// target type.
pub fn generate(table_name: &String, schemas: &Vec<TableSchema>) -> (r: Result<
    GeneratedRecordType,
    Error,
>)
    ensures
        r matches Ok(g) ==> (spec_generate(table_name@, view_tables(schemas@)) matches Ok(gv) && g@
            == gv),
        r matches Err(e) ==> (spec_generate(table_name@, view_tables(schemas@)) matches Err(ev)
            && e@ == ev),
{
    let ghost vtables = view_tables(schemas@);
    let n = schemas.len();
    let mut found: Option<usize> = None;
    let mut count: usize = 0;
    let mut i: usize = 0;
    proof {
        assert(vtables.subrange(0, n as int) =~= vtables);
        assert(spec_matching(table_name@, vtables) == Seq::<TableSchemaV>::empty()
            + spec_matching(table_name@, vtables.subrange(0, n as int)));
    }
    let ghost matched: Seq<TableSchemaV> = Seq::empty();
    let mut hits: Vec<usize> = Vec::new();
    while i < n
        invariant
            n == schemas@.len(),
            vtables == view_tables(schemas@),
            vtables.len() == n,
            i <= n,
            hits@.len() <= i,
            spec_matching(table_name@, vtables) == view_hits(hits@, vtables) + spec_matching(
                table_name@,
                vtables.subrange(i as int, n as int),
            ),
            forall|j: int| 0 <= j < hits@.len() ==> (#[trigger] hits@[j]) < n,
        decreases n - i,
    {
        let ghost sub = vtables.subrange(i as int, n as int);
        proof {
            assert(sub[0] == vtables[i as int]);
            assert(vtables[i as int] == schemas@[i as int]@);
            assert(sub.drop_first() =~= vtables.subrange(i + 1, n as int));
        }
        let ghost prev_hits = hits@;
        if str_eq_ignore_case(table_name.as_str(), schemas[i].name.as_str()) {
            hits.push(i);
            proof {
                assert(view_hits(hits@, vtables) =~= view_hits(prev_hits, vtables).push(
                    vtables[i as int],
                ));
                assert(spec_matching(table_name@, sub) == seq![vtables[i as int]] + spec_matching(
                    table_name@,
                    sub.drop_first(),
                ));
                assert(view_hits(prev_hits, vtables) + (seq![vtables[i as int]] + spec_matching(
                    table_name@,
                    sub.drop_first(),
                )) =~= view_hits(hits@, vtables) + spec_matching(table_name@, sub.drop_first()));
            }
        } else {
            proof {
                assert(spec_matching(table_name@, sub) == spec_matching(
                    table_name@,
                    sub.drop_first(),
                ));
            }
        }
        i = i + 1;
    }
    proof {
        assert(vtables.subrange(n as int, n as int).len() == 0);
        assert(spec_matching(table_name@, vtables.subrange(n as int, n as int))
            =~= Seq::<TableSchemaV>::empty());
        assert(view_hits(hits@, vtables) + Seq::<TableSchemaV>::empty() =~= view_hits(
            hits@,
            vtables,
        ));
        assert(spec_matching(table_name@, vtables) == view_hits(hits@, vtables));
    }
    if hits.len() == 0 {
        return Err(Error::TableNotFound { table: table_name.clone() });
    }
    if hits.len() > 1 {
        return Err(Error::AmbiguousTable { table: table_name.clone() });
    }
    let idx = hits[0];
    let table = &schemas[idx];
    proof {
        assert(view_hits(hits@, vtables)[0] == vtables[idx as int]);
        assert(spec_matching(table_name@, vtables)[0] == table@);
        assert(table@.fields == crate::schema::view_fields(table.fields@)) by {
            assert(table@.fields =~= crate::schema::view_fields(table.fields@));
        }
    }
    let gfields = match generated_fields(&table.fields) {
        Ok(gs) => gs,
        Err(e) => {
            return Err(e);
        },
    };
    let record = GeneratedRecordType { record_name: table_name.clone(), fields: gfields };
    proof {
        assert(record@.fields =~= view_gen_fields(record.fields@));
        assert(spec_generate(table_name@, vtables) matches Ok(gv) && gv == record@);
    }
    Ok(record)
}

/// The tables of a schema set picked out by a sequence of indices.
spec fn view_hits(hits: Seq<usize>, tables: Seq<TableSchemaV>) -> Seq<TableSchemaV> {
    Seq::new(hits.len(), |j: int| tables[hits[j] as int])
}

} // verus!
