//! Derived table and field schemas: decoding the engine's metadata
//! responses, and classifying field nullability.

use vstd::prelude::*;

use crate::define::{AssertShape, FieldDef, FieldDefV};
use crate::error::{Error, ErrorV};
use crate::parse::{decode_field_definition, decode_table_definition, spec_decode_field,
    spec_decode_table};
use crate::value::{lemma_view_entries_index, lemma_view_entries_len, lookup, spec_lookup,
    spec_val_label, val_label, view_entries, EngineVal, EngineValV};
use vstd::string::StringExecFns;

verus! {

/// A field of a derived table schema: its name, the definition text the
/// engine reported, the declared kind (absent when none is declared),
/// whether an absent value is permitted, and the shape of the validation
/// expression the nullability was inferred from.
#[derive(Debug)]
pub struct FieldSchema {
    pub name: String,
    pub definition: String,
    pub kind: Option<String>,
    pub nullable: bool,
    pub assert: AssertShape,
}

/// The mathematical shape of a [`FieldSchema`].
pub struct FieldSchemaV {
    pub name: Seq<char>,
    pub definition: Seq<char>,
    pub kind: Option<Seq<char>>,
    pub nullable: bool,
    pub assert: AssertShape,
}

impl View for FieldSchema {
    type V = FieldSchemaV;

    open spec fn view(&self) -> FieldSchemaV {
        FieldSchemaV {
            name: self.name@,
            definition: self.definition@,
            kind: match self.kind {
                Some(k) => Some(k@),
                None => None,
            },
            nullable: self.nullable,
            assert: self.assert,
        }
    }
}

/// A derived table schema: the table's name, its definition text as the
/// engine reported it, and its fields in the order the engine listed them.
#[derive(Debug)]
pub struct TableSchema {
    pub name: String,
    pub definition: String,
    pub fields: Vec<FieldSchema>,
}

/// The mathematical shape of a [`TableSchema`].
pub struct TableSchemaV {
    pub name: Seq<char>,
    pub definition: Seq<char>,
    pub fields: Seq<FieldSchemaV>,
}

impl View for TableSchema {
    type V = TableSchemaV;

    open spec fn view(&self) -> TableSchemaV {
        TableSchemaV {
            name: self.name@,
            definition: self.definition@,
            fields: Seq::new(self.fields@.len(), |i: int| self.fields@[i]@),
        }
    }
}

/// The views of a sequence of table schemas.
pub open spec fn view_tables(v: Seq<TableSchema>) -> Seq<TableSchemaV> {
    Seq::new(v.len(), |i: int| v[i]@)
}

/// The rendering of a sequence of field definitions, each terminated and on
/// a line of its own.
pub open spec fn spec_render_fields(fs: Seq<FieldSchemaV>) -> Seq<char>
    decreases fs.len(),
{
    if fs.len() == 0 {
        Seq::empty()
    } else {
        fs[0].definition + ";\n"@ + spec_render_fields(fs.drop_first())
    }
}

/// The textual rendering of a table schema: the table's definition text,
/// then each field's, one per line.
pub open spec fn spec_render(t: TableSchemaV) -> Seq<char> {
    t.definition + ";\n"@ + spec_render_fields(t.fields)
}

impl TableSchema {
    /// Renders the schema as definition text, one definition per line.
    pub fn render(&self) -> (r: String)
        ensures
            r@ == spec_render(self@),
    {
        let ghost vfields = self@.fields;
        let mut out = String::new();
        out.append(self.definition.as_str());
        out.append(";\n");
        let n = self.fields.len();
        let mut i: usize = 0;
        proof {
            assert(vfields.subrange(0, n as int) =~= vfields);
            assert(out@ =~= self@.definition + ";\n"@);
        }
        while i < n
            invariant
                n == self.fields@.len(),
                vfields == self@.fields,
                vfields.len() == n,
                i <= n,
                spec_render(self@) == out@ + spec_render_fields(
                    vfields.subrange(i as int, n as int),
                ),
            decreases n - i,
        {
            let ghost sub = vfields.subrange(i as int, n as int);
            let ghost prev = out@;
            proof {
                assert(sub[0] == vfields[i as int]);
                assert(vfields[i as int] == self.fields@[i as int]@);
                assert(sub.drop_first() =~= vfields.subrange(i + 1, n as int));
            }
            out.append(self.fields[i].definition.as_str());
            out.append(";\n");
            proof {
                assert(out@ =~= prev + sub[0].definition + ";\n"@);
                assert(prev + (sub[0].definition + ";\n"@ + spec_render_fields(sub.drop_first()))
                    =~= out@ + spec_render_fields(sub.drop_first()));
            }
            i = i + 1;
        }
        proof {
            assert(spec_render_fields(vfields.subrange(n as int, n as int)) =~= Seq::<
                char,
            >::empty());
            assert(out@ + Seq::<char>::empty() =~= out@);
        }
        out
    }
}

/// Whether a field with the given validation shape permits an absent value.
///
/// A field is non-nullable exactly when its validation expression is a
/// single binary `not equal` comparison between the none sentinel and one
/// other operand (the degenerate comparison of the sentinel with itself
/// counts for nothing). Every other shape — no expression, another operator,
/// a conjunction, a disjunction — permits absence: the classifier recognizes
/// exactly one narrow pattern and is not a constraint solver.
pub open spec fn spec_is_nullable(assert: AssertShape) -> bool {
    !(assert matches AssertShape::Binary { not_equal, left_none, right_none }
        && not_equal && left_none != right_none)
}

/// Decides whether a field permits an absent value, from its decoded
/// definition. See [`spec_is_nullable`] for the policy.
pub fn is_nullable(field: &FieldDef) -> (r: bool)
    ensures
        r == spec_is_nullable(field.assert),
{
    match field.assert {
        AssertShape::Binary { not_equal, left_none, right_none } => !(not_equal && (left_none
            != right_none)),
        _ => true,
    }
}

/// A field defined to be `not equal` to the none sentinel is classified
/// non-nullable; the same field defined with no validation expression at all
/// is classified nullable.
pub proof fn lemma_nullability_round_trip(checked: FieldDefV, plain: FieldDefV)
    requires
        checked.assert matches AssertShape::Binary { not_equal, left_none, right_none }
            && not_equal && left_none != right_none,
        plain.assert == AssertShape::Absent,
    ensures
        !spec_is_nullable(checked.assert),
        spec_is_nullable(plain.assert),
{
}

/// The field schema decoded from one definition text.
pub open spec fn spec_field_schema(def_text: Seq<char>) -> Result<FieldSchemaV, ErrorV> {
    match spec_decode_field(def_text) {
        Ok(fd) => Ok(FieldSchemaV {
            name: fd.name,
            definition: def_text,
            kind: fd.kind,
            nullable: spec_is_nullable(fd.assert),
            assert: fd.assert,
        }),
        Err(e) => Err(e),
    }
}

/// Decodes one definition text into a field schema, attaching nullability.
pub fn field_schema_from_definition(def_text: &String) -> (r: Result<FieldSchema, Error>)
    ensures
        r matches Ok(f) ==> spec_field_schema(def_text@) matches Ok(fv) && f@ == fv,
        r matches Err(e) ==> spec_field_schema(def_text@) matches Err(ev) && e@ == ev,
{
    match decode_field_definition(def_text) {
        Ok(fd) => {
            let nullable = is_nullable(&fd);
            Ok(FieldSchema {
                name: fd.name,
                definition: def_text.clone(),
                kind: fd.kind,
                nullable,
                assert: fd.assert,
            })
        },
        Err(e) => Err(e),
    }
}

/// The table schema decoded from one entry of the catalog's table mapping:
/// the value must be a string holding a table-definition text.
pub open spec fn spec_table_from_entry(name: Seq<char>, v: EngineValV) -> Result<
    TableSchemaV,
    ErrorV,
> {
    match v {
        EngineValV::Strand(text) => match spec_decode_table(text) {
            Ok(_) => Ok(TableSchemaV { name: name, definition: text, fields: Seq::empty() }),
            Err(e) => Err(e),
        },
        other => Err(ErrorV::UnexpectedType {
            expected: "a string value"@,
            got: spec_val_label(other),
        }),
    }
}

/// The table schemas decoded from the catalog's table mapping, in its order;
/// the first failing entry aborts the whole decode.
pub open spec fn spec_tables_from_entries(entries: Seq<(Seq<char>, EngineValV)>) -> Result<
    Seq<TableSchemaV>,
    ErrorV,
>
    decreases entries.len(),
{
    if entries.len() == 0 {
        Ok(Seq::empty())
    } else {
        match spec_table_from_entry(entries[0].0, entries[0].1) {
            Err(e) => Err(e),
            Ok(t) => match spec_tables_from_entries(entries.drop_first()) {
                Err(e) => Err(e),
                Ok(rest) => Ok(seq![t] + rest),
            },
        }
    }
}

/// The table schemas decoded from a database-scope metadata response, which
/// must be a mapping holding a `tb` key whose value is the table mapping.
pub open spec fn spec_tables_from_info(v: EngineValV) -> Result<Seq<TableSchemaV>, ErrorV> {
    match v {
        EngineValV::Object(entries) => match spec_lookup(entries, "tb"@) {
            None => Err(ErrorV::MissingExpectedKey { key: "tb"@ }),
            Some(EngineValV::Object(tentries)) => spec_tables_from_entries(tentries),
            Some(other) => Err(ErrorV::UnexpectedType {
                expected: "an object value"@,
                got: spec_val_label(other),
            }),
        },
        other => Err(ErrorV::UnexpectedType {
            expected: "an object value"@,
            got: spec_val_label(other),
        }),
    }
}

/// A decoded prefix followed by the rest of a table decode.
spec fn splice_tables(acc: Seq<TableSchemaV>, rest: Result<Seq<TableSchemaV>, ErrorV>) -> Result<
    Seq<TableSchemaV>,
    ErrorV,
> {
    match rest {
        Ok(ts) => Ok(acc + ts),
        Err(e) => Err(e),
    }
}

/// Decodes the catalog's table mapping entries.
fn tables_from_entries(tentries: &Vec<(String, EngineVal)>) -> (r: Result<Vec<TableSchema>, Error>)
    ensures
        r matches Ok(v) ==> spec_tables_from_entries(view_entries(tentries@)) matches Ok(sv)
            && view_tables(v@) == sv,
        r matches Err(e) ==> spec_tables_from_entries(view_entries(tentries@)) matches Err(ev)
            && e@ == ev,
{
    let ghost ventries = view_entries(tentries@);
    proof {
        lemma_view_entries_len(tentries@);
    }
    let n = tentries.len();
    let mut acc: Vec<TableSchema> = Vec::new();
    let mut i: usize = 0;
    proof {
        assert(ventries.subrange(0, n as int) =~= ventries);
        match spec_tables_from_entries(ventries) {
            Ok(all) => {
                assert(view_tables(acc@) + all =~= all);
            },
            Err(_) => {},
        }
    }
    while i < n
        invariant
            n == tentries@.len(),
            ventries == view_entries(tentries@),
            ventries.len() == n,
            i <= n,
            spec_tables_from_entries(ventries) == splice_tables(
                view_tables(acc@),
                spec_tables_from_entries(ventries.subrange(i as int, n as int)),
            ),
        decreases n - i,
    {
        let ghost sub = ventries.subrange(i as int, n as int);
        proof {
            lemma_view_entries_index(tentries@, i as int);
            assert(sub[0] == ventries[i as int]);
        }
        let name = &tentries[i].0;
        let val = &tentries[i].1;
        let text = match val {
            EngineVal::Strand(text) => text,
            other => {
                proof {
                    assert(spec_tables_from_entries(sub) matches Err(e) && e
                        == (ErrorV::UnexpectedType {
                        expected: "a string value"@,
                        got: spec_val_label(sub[0].1),
                    }));
                }
                return Err(Error::UnexpectedType {
                    expected: "a string value".to_owned(),
                    got: val_label(other),
                });
            },
        };
        match decode_table_definition(text) {
            Ok(_) => (),
            Err(e) => {
                proof {
                    assert(spec_table_from_entry(sub[0].0, sub[0].1) matches Err(ev) && ev == e@);
                    assert(spec_tables_from_entries(sub) matches Err(ev) && ev == e@);
                }
                return Err(e);
            },
        }
        let table = TableSchema { name: name.clone(), definition: text.clone(), fields: Vec::new() };
        proof {
            assert(table@.fields =~= Seq::<FieldSchemaV>::empty());
            assert(spec_table_from_entry(sub[0].0, sub[0].1) matches Ok(t) && t == table@);
            assert(sub.drop_first() =~= ventries.subrange(i + 1, n as int));
        }
        let ghost prev = acc@;
        acc.push(table);
        proof {
            assert(view_tables(acc@) =~= view_tables(prev).push(table@));
            match spec_tables_from_entries(sub.drop_first()) {
                Err(_) => {},
                Ok(rest) => {
                    assert(spec_tables_from_entries(sub) matches Ok(ts) && ts == seq![table@]
                        + rest);
                    assert(view_tables(prev) + (seq![table@] + rest) =~= view_tables(prev).push(
                        table@,
                    ) + rest);
                },
            }
        }
        i = i + 1;
    }
    proof {
        assert(ventries.subrange(n as int, n as int).len() == 0);
        match spec_tables_from_entries(ventries) {
            Ok(all) => {
                assert(view_tables(acc@) + Seq::<TableSchemaV>::empty() =~= view_tables(acc@));
            },
            Err(_) => {},
        }
    }
    Ok(acc)
}

/// Decodes a database-scope metadata response into table schemas with empty
/// field lists.
pub fn tables_from_info(info: &EngineVal) -> (r: Result<Vec<TableSchema>, Error>)
    ensures
        r matches Ok(v) ==> spec_tables_from_info(info@) matches Ok(sv) && view_tables(v@) == sv,
        r matches Err(e) ==> spec_tables_from_info(info@) matches Err(ev) && e@ == ev,
{
    let entries = match info {
        EngineVal::Object(entries) => entries,
        other => {
            return Err(Error::UnexpectedType {
                expected: "an object value".to_owned(),
                got: val_label(other),
            });
        },
    };
    match lookup(entries, "tb") {
        None => Err(Error::MissingExpectedKey { key: "tb".to_owned() }),
        Some(EngineVal::Object(tentries)) => tables_from_entries(tentries),
        Some(other) => Err(Error::UnexpectedType {
            expected: "an object value".to_owned(),
            got: val_label(other),
        }),
    }
}

/// The views of a sequence of field schemas.
pub open spec fn view_fields(v: Seq<FieldSchema>) -> Seq<FieldSchemaV> {
    Seq::new(v.len(), |i: int| v[i]@)
}

/// The view of one engine result: the value's view, or the engine's error
/// message.
pub open spec fn view_resp(r: Result<EngineVal, String>) -> Result<EngineValV, Seq<char>> {
    match r {
        Ok(v) => Ok(v@),
        Err(m) => Err(m@),
    }
}

/// The views of a sequence of engine results.
pub open spec fn view_resps(v: Seq<Result<EngineVal, String>>) -> Seq<
    Result<EngineValV, Seq<char>>,
> {
    Seq::new(v.len(), |i: int| view_resp(v[i]))
}

/// The field schema decoded from one entry of a table's field mapping: the
/// value must be a string holding a field-definition text. The field's name
/// comes from the decoded definition, not from the mapping key.
pub open spec fn spec_field_from_entry(v: EngineValV) -> Result<FieldSchemaV, ErrorV> {
    match v {
        EngineValV::Strand(text) => spec_field_schema(text),
        other => Err(ErrorV::UnexpectedType {
            expected: "a string value"@,
            got: spec_val_label(other),
        }),
    }
}

/// The field schemas decoded from a table's field mapping, in its order; the
/// first failing entry aborts the whole decode.
pub open spec fn spec_fields_from_entries(entries: Seq<(Seq<char>, EngineValV)>) -> Result<
    Seq<FieldSchemaV>,
    ErrorV,
>
    decreases entries.len(),
{
    if entries.len() == 0 {
        Ok(Seq::empty())
    } else {
        match spec_field_from_entry(entries[0].1) {
            Err(e) => Err(e),
            Ok(f) => match spec_fields_from_entries(entries.drop_first()) {
                Err(e) => Err(e),
                Ok(rest) => Ok(seq![f] + rest),
            },
        }
    }
}

/// A decoded prefix followed by the rest of a field decode.
spec fn splice_fields(acc: Seq<FieldSchemaV>, rest: Result<Seq<FieldSchemaV>, ErrorV>) -> Result<
    Seq<FieldSchemaV>,
    ErrorV,
> {
    match rest {
        Ok(fs) => Ok(acc + fs),
        Err(e) => Err(e),
    }
}

/// Decodes a table's field mapping entries.
fn fields_from_entries(fentries: &Vec<(String, EngineVal)>) -> (r: Result<Vec<FieldSchema>, Error>)
    ensures
        r matches Ok(v) ==> spec_fields_from_entries(view_entries(fentries@)) matches Ok(sv)
            && view_fields(v@) == sv,
        r matches Err(e) ==> spec_fields_from_entries(view_entries(fentries@)) matches Err(ev)
            && e@ == ev,
{
    let ghost ventries = view_entries(fentries@);
    proof {
        lemma_view_entries_len(fentries@);
    }
    let n = fentries.len();
    let mut acc: Vec<FieldSchema> = Vec::new();
    let mut i: usize = 0;
    proof {
        assert(ventries.subrange(0, n as int) =~= ventries);
        match spec_fields_from_entries(ventries) {
            Ok(all) => {
                assert(view_fields(acc@) + all =~= all);
            },
            Err(_) => {},
        }
    }
    while i < n
        invariant
            n == fentries@.len(),
            ventries == view_entries(fentries@),
            ventries.len() == n,
            i <= n,
            spec_fields_from_entries(ventries) == splice_fields(
                view_fields(acc@),
                spec_fields_from_entries(ventries.subrange(i as int, n as int)),
            ),
        decreases n - i,
    {
        let ghost sub = ventries.subrange(i as int, n as int);
        proof {
            lemma_view_entries_index(fentries@, i as int);
            assert(sub[0] == ventries[i as int]);
        }
        let val = &fentries[i].1;
        let text = match val {
            EngineVal::Strand(text) => text,
            other => {
                proof {
                    assert(spec_fields_from_entries(sub) matches Err(e) && e
                        == (ErrorV::UnexpectedType {
                        expected: "a string value"@,
                        got: spec_val_label(sub[0].1),
                    }));
                }
                return Err(Error::UnexpectedType {
                    expected: "a string value".to_owned(),
                    got: val_label(other),
                });
            },
        };
        let field = match field_schema_from_definition(text) {
            Ok(f) => f,
            Err(e) => {
                proof {
                    assert(spec_field_from_entry(sub[0].1) matches Err(ev) && ev == e@);
                    assert(spec_fields_from_entries(sub) matches Err(ev) && ev == e@);
                }
                return Err(e);
            },
        };
        proof {
            assert(spec_field_from_entry(sub[0].1) matches Ok(f) && f == field@);
            assert(sub.drop_first() =~= ventries.subrange(i + 1, n as int));
        }
        let ghost prev = acc@;
        acc.push(field);
        proof {
            assert(view_fields(acc@) =~= view_fields(prev).push(field@));
            match spec_fields_from_entries(sub.drop_first()) {
                Err(_) => {},
                Ok(rest) => {
                    assert(spec_fields_from_entries(sub) matches Ok(fs) && fs == seq![field@]
                        + rest);
                    assert(view_fields(prev) + (seq![field@] + rest) =~= view_fields(prev).push(
                        field@,
                    ) + rest);
                },
            }
        }
        i = i + 1;
    }
    proof {
        assert(ventries.subrange(n as int, n as int).len() == 0);
        match spec_fields_from_entries(ventries) {
            Ok(all) => {
                assert(view_fields(acc@) + Seq::<FieldSchemaV>::empty() =~= view_fields(acc@));
            },
            Err(_) => {},
        }
    }
    Ok(acc)
}

/// A table schema with the fields that its metadata response holds: the
/// response must be a mapping holding an `fd` key whose value maps field
/// names to definition texts. An engine failure passes through.
pub open spec fn spec_attach_fields(t: TableSchemaV, resp: Result<EngineValV, Seq<char>>) -> Result<
    TableSchemaV,
    ErrorV,
> {
    match resp {
        Err(msg) => Err(ErrorV::EngineFailure { message: msg }),
        Ok(EngineValV::Object(entries)) => match spec_lookup(entries, "fd"@) {
            None => Err(ErrorV::MissingExpectedKey { key: "fd"@ }),
            Some(EngineValV::Object(fentries)) => match spec_fields_from_entries(fentries) {
                Ok(fs) => Ok(TableSchemaV { fields: fs, ..t }),
                Err(e) => Err(e),
            },
            Some(other) => Err(ErrorV::UnexpectedType {
                expected: "an object value"@,
                got: spec_val_label(other),
            }),
        },
        Ok(other) => Err(ErrorV::UnexpectedType {
            expected: "an object value"@,
            got: spec_val_label(other),
        }),
    }
}

/// Fills a table schema's fields from its table-scope metadata response.
/// On failure the schema is left as it was.
pub fn set_table_schema(schema: &mut TableSchema, resp: Result<EngineVal, String>) -> (r: Result<
    (),
    Error,
>)
    ensures
        r is Ok <==> spec_attach_fields(old(schema)@, view_resp(resp)) is Ok,
        r is Ok ==> (spec_attach_fields(old(schema)@, view_resp(resp)) matches Ok(t)
            && final(schema)@ == t),
        r matches Err(e) ==> spec_attach_fields(old(schema)@, view_resp(resp)) matches Err(ev)
            && e@ == ev && final(schema)@ == old(schema)@,
{
    let val = match resp {
        Ok(v) => v,
        Err(m) => {
            return Err(Error::EngineFailure { message: m });
        },
    };
    let entries = match &val {
        EngineVal::Object(entries) => entries,
        other => {
            return Err(Error::UnexpectedType {
                expected: "an object value".to_owned(),
                got: val_label(other),
            });
        },
    };
    let fields = match lookup(entries, "fd") {
        None => {
            return Err(Error::MissingExpectedKey { key: "fd".to_owned() });
        },
        Some(EngineVal::Object(fentries)) => match fields_from_entries(fentries) {
            Ok(fs) => fs,
            Err(e) => {
                return Err(e);
            },
        },
        Some(other) => {
            return Err(Error::UnexpectedType {
                expected: "an object value".to_owned(),
                got: val_label(other),
            });
        },
    };
    schema.fields = fields;
    proof {
        assert(spec_attach_fields(old(schema)@, view_resp(resp)) matches Ok(t) && schema@ == t);
    }
    Ok(())
}

/// The single value of a one-statement batch: exactly one result must be
/// present, and it must be a success; otherwise the count, or the engine's
/// failure, is reported.
pub open spec fn spec_unwrap_single(rs: Seq<Result<EngineValV, Seq<char>>>) -> Result<
    EngineValV,
    ErrorV,
> {
    if rs.len() != 1 {
        Err(ErrorV::ResultCountMismatch { expected: 1 as nat, got: rs.len() })
    } else {
        match rs[0] {
            Ok(v) => Ok(v),
            Err(m) => Err(ErrorV::EngineFailure { message: m }),
        }
    }
}

/// Unwraps the result of a batch that must hold exactly one statement.
pub fn unwrap_single(results: Vec<Result<EngineVal, String>>) -> (r: Result<EngineVal, Error>)
    ensures
        r matches Ok(v) ==> spec_unwrap_single(view_resps(results@)) matches Ok(sv) && v@ == sv,
        r matches Err(e) ==> spec_unwrap_single(view_resps(results@)) matches Err(ev) && e@ == ev,
{
    if results.len() != 1 {
        let got = results.len();
        return Err(Error::ResultCountMismatch { expected: 1, got });
    }
    let mut results = results;
    match results.remove(0) {
        Ok(v) => Ok(v),
        Err(m) => Err(Error::EngineFailure { message: m }),
    }
}

/// The first engine failure in a batch of results, if any.
pub open spec fn spec_first_failure(rs: Seq<Result<EngineValV, Seq<char>>>) -> Option<Seq<char>>
    decreases rs.len(),
{
    if rs.len() == 0 {
        None
    } else {
        match rs[0] {
            Err(m) => Some(m),
            Ok(_) => spec_first_failure(rs.drop_first()),
        }
    }
}

/// Skipping a failure-free prefix does not change the first failure.
proof fn lemma_first_failure_skip(rs: Seq<Result<EngineValV, Seq<char>>>, i: int)
    requires
        0 <= i <= rs.len(),
        forall|j: int| 0 <= j < i ==> rs[j] is Ok,
    ensures
        spec_first_failure(rs) == spec_first_failure(rs.subrange(i, rs.len() as int)),
    decreases i,
{
    if i > 0 {
        assert(rs.drop_first() =~= rs.subrange(1, rs.len() as int));
        lemma_first_failure_skip(rs.drop_first(), i - 1);
        assert(rs.drop_first().subrange(i - 1, rs.drop_first().len() as int) =~= rs.subrange(
            i,
            rs.len() as int,
        ));
    } else {
        assert(rs.subrange(0, rs.len() as int) =~= rs);
    }
}

/// Checks that every statement of an applied batch succeeded, reporting the
/// first engine failure otherwise.
pub fn require_all_ok(results: &Vec<Result<EngineVal, String>>) -> (r: Result<(), Error>)
    ensures
        r is Ok <==> spec_first_failure(view_resps(results@)) is None,
        r matches Err(e) ==> spec_first_failure(view_resps(results@)) matches Some(m) && e@
            == (ErrorV::EngineFailure { message: m }),
{
    let ghost vresps = view_resps(results@);
    let n = results.len();
    let mut i: usize = 0;
    while i < n
        invariant
            n == results@.len(),
            vresps == view_resps(results@),
            vresps.len() == n,
            i <= n,
            forall|j: int| 0 <= j < i ==> vresps[j] is Ok,
        decreases n - i,
    {
        match &results[i] {
            Ok(_) => (),
            Err(m) => {
                proof {
                    lemma_first_failure_skip(vresps, i as int);
                    assert(vresps.subrange(i as int, n as int)[0] == vresps[i as int]);
                }
                return Err(Error::EngineFailure { message: m.clone() });
            },
        }
        i = i + 1;
    }
    proof {
        lemma_first_failure_skip(vresps, n as int);
        assert(vresps.subrange(n as int, n as int).len() == 0);
    }
    Ok(())
}

/// Every table schema with the fields of its paired response; the first
/// failure aborts the whole derivation.
pub open spec fn spec_attach_all(
    tables: Seq<TableSchemaV>,
    resps: Seq<Result<EngineValV, Seq<char>>>,
) -> Result<Seq<TableSchemaV>, ErrorV>
    decreases tables.len(),
{
    if tables.len() == 0 {
        Ok(Seq::empty())
    } else {
        match spec_attach_fields(tables[0], resps[0]) {
            Err(e) => Err(e),
            Ok(t) => match spec_attach_all(tables.drop_first(), resps.drop_first()) {
                Err(e) => Err(e),
                Ok(rest) => Ok(seq![t] + rest),
            },
        }
    }
}

/// The full derivation from metadata responses: the database-scope response
/// (as a one-statement batch) names the tables; the table-scope responses,
/// one per table in order, fill their fields. A response count that does not
/// match the table count is an error: the derived schema is all-or-nothing.
pub open spec fn spec_derive_schemas(
    db_results: Seq<Result<EngineValV, Seq<char>>>,
    field_resps: Seq<Result<EngineValV, Seq<char>>>,
) -> Result<Seq<TableSchemaV>, ErrorV> {
    match spec_unwrap_single(db_results) {
        Err(e) => Err(e),
        Ok(v) => match spec_tables_from_info(v) {
            Err(e) => Err(e),
            Ok(tables) => {
                if field_resps.len() != tables.len() {
                    Err(ErrorV::ResultCountMismatch {
                        expected: tables.len(),
                        got: field_resps.len(),
                    })
                } else {
                    spec_attach_all(tables, field_resps)
                }
            },
        },
    }
}

/// Derives the full schema set from the engine's metadata responses:
/// decodes the database-scope response into tables, then fills each table's
/// fields from its table-scope response.
pub fn derive_schemas(
    db_results: Vec<Result<EngineVal, String>>,
    field_resps: Vec<Result<EngineVal, String>>,
) -> (r: Result<Vec<TableSchema>, Error>)
    ensures
        r matches Ok(v) ==> spec_derive_schemas(view_resps(db_results@), view_resps(field_resps@))
            matches Ok(sv) && view_tables(v@) == sv,
        r matches Err(e) ==> spec_derive_schemas(view_resps(db_results@), view_resps(field_resps@))
            matches Err(ev) && e@ == ev,
{
    let ghost vdb = view_resps(db_results@);
    let ghost vfrs = view_resps(field_resps@);
    let db_val = match unwrap_single(db_results) {
        Ok(v) => v,
        Err(e) => {
            return Err(e);
        },
    };
    let tables = match tables_from_info(&db_val) {
        Ok(ts) => ts,
        Err(e) => {
            return Err(e);
        },
    };
    if field_resps.len() != tables.len() {
        let expected = tables.len();
        let got = field_resps.len();
        return Err(Error::ResultCountMismatch { expected, got });
    }
    let ghost all_tables = view_tables(tables@);
    let n = tables.len();
    let mut rest_tables = tables;
    let mut rest_resps = field_resps;
    let mut out: Vec<TableSchema> = Vec::new();
    let mut i: usize = 0;
    proof {
        assert(view_tables(rest_tables@) =~= all_tables.subrange(0, n as int));
        assert(all_tables.subrange(0, n as int) =~= all_tables);
        assert(view_resps(rest_resps@) =~= vfrs.subrange(0, n as int));
        assert(vfrs.subrange(0, n as int) =~= vfrs);
        match spec_attach_all(all_tables, vfrs) {
            Ok(all) => {
                assert(view_tables(out@) + all =~= all);
            },
            Err(_) => {},
        }
    }
    while i < n
        invariant
            i <= n,
            all_tables.len() == n,
            vfrs.len() == n,
            rest_tables@.len() == n - i,
            rest_resps@.len() == n - i,
            vdb == view_resps(db_results@),
            vfrs == view_resps(field_resps@),
            spec_derive_schemas(vdb, vfrs) == spec_attach_all(all_tables, vfrs),
            view_tables(rest_tables@) == all_tables.subrange(i as int, n as int),
            view_resps(rest_resps@) == vfrs.subrange(i as int, n as int),
            spec_attach_all(all_tables, vfrs) == splice_tables(
                view_tables(out@),
                spec_attach_all(
                    all_tables.subrange(i as int, n as int),
                    vfrs.subrange(i as int, n as int),
                ),
            ),
        decreases n - i,
    {
        let ghost tsub = all_tables.subrange(i as int, n as int);
        let ghost rsub = vfrs.subrange(i as int, n as int);
        let ghost prev_tables = rest_tables@;
        let ghost prev_resps = rest_resps@;
        let mut t = rest_tables.remove(0);
        let resp = rest_resps.remove(0);
        proof {
            assert(view_tables(prev_tables)[0] == t@);
            assert(view_resps(prev_resps)[0] == view_resp(resp));
            assert(view_tables(rest_tables@) =~= view_tables(prev_tables).drop_first());
            assert(view_resps(rest_resps@) =~= view_resps(prev_resps).drop_first());
            assert(tsub.drop_first() =~= all_tables.subrange(i + 1, n as int));
            assert(rsub.drop_first() =~= vfrs.subrange(i + 1, n as int));
        }
        match set_table_schema(&mut t, resp) {
            Ok(_) => (),
            Err(e) => {
                proof {
                    assert(spec_attach_all(tsub, rsub) matches Err(ev) && ev == e@);
                }
                return Err(e);
            },
        }
        let ghost prev_out = out@;
        out.push(t);
        proof {
            assert(view_tables(out@) =~= view_tables(prev_out).push(t@));
            match spec_attach_all(tsub.drop_first(), rsub.drop_first()) {
                Err(_) => {},
                Ok(rest) => {
                    assert(spec_attach_all(tsub, rsub) matches Ok(ts) && ts == seq![t@] + rest);
                    assert(view_tables(prev_out) + (seq![t@] + rest) =~= view_tables(
                        prev_out,
                    ).push(t@) + rest);
                },
            }
        }
        i = i + 1;
    }
    proof {
        assert(all_tables.subrange(n as int, n as int).len() == 0);
        assert(vfrs.subrange(n as int, n as int).len() == 0);
        match spec_attach_all(all_tables, vfrs) {
            Ok(all) => {
                assert(view_tables(out@) + Seq::<TableSchemaV>::empty() =~= view_tables(out@));
            },
            Err(_) => {},
        }
    }
    Ok(out)
}

/// Schema derivation is a pure function of the engine's responses: two
/// derivations from equal response sets yield equal schema sets. Whatever
/// unstable identifiers the engine assigns elsewhere, they do not reach the
/// derived schema.
pub proof fn lemma_derivation_deterministic(
    db1: Seq<Result<EngineValV, Seq<char>>>,
    frs1: Seq<Result<EngineValV, Seq<char>>>,
    db2: Seq<Result<EngineValV, Seq<char>>>,
    frs2: Seq<Result<EngineValV, Seq<char>>>,
)
    requires
        db1 == db2,
        frs1 == frs2,
    ensures
        spec_derive_schemas(db1, frs1) == spec_derive_schemas(db2, frs2),
{
}

} // verus!
