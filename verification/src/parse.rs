//! The trusted boundary to the engine's statement parser, and the verified
//! re-parser that narrows definition text back into structured form.
//!
//! The engine's introspection queries report catalog entries as statement
//! text, so recovering structure means parsing that text a second time and
//! checking that exactly one statement of the expected kind comes back.

use vstd::prelude::*;

use crate::define::{spec_shape_label, shape_label, AssertShape, DefineShape, DefineShapeV,
    FieldDef, FieldDefV, FieldHeader};
use crate::error::{Error, ErrorV};
use surrealdb_core::sql::statements::DefineStatement;
use surrealdb_core::sql::{Expression, Operator, Statement, Value};

verus! {

/// The statements that the engine's parser reads out of a text, each given by
/// its canonical text, or nothing when the text does not parse. The parser is
/// a pure function of the text, so naming its result is sound.
pub uninterp spec fn statement_texts(text: Seq<char>) -> Option<Seq<Seq<char>>>;

/// The shape of the first statement that the engine's parser reads out of a
/// text (`NoStatement` when parsing fails or yields nothing). A pure function
/// of the text, like [`statement_texts`].
pub uninterp spec fn define_shape_of(text: Seq<char>) -> DefineShapeV;

/// The shape of the `ASSERT` expression on the first statement the engine's
/// parser reads out of a text, when that statement is a field definition
/// (`Absent` otherwise). A pure function of the text.
pub uninterp spec fn field_assert_of(text: Seq<char>) -> AssertShape;

/// Relies on `surrealdb_core::sql::parse` and on the canonical `Display` of
/// its statements: parses a text into statements and hands each back as its
/// canonical text.
#[verifier::external_body]
pub(crate) fn parse_statement_texts(text: &str) -> (r: Option<Vec<String>>)
    ensures
        r is Some <==> statement_texts(text@) is Some,
        r matches Some(v) ==> v.deep_view() == statement_texts(text@).unwrap(),
{
    match surrealdb_core::sql::parse(text) {
        Ok(q) => Some((q.0).0.iter().map(|s| s.to_string()).collect()),
        Err(_) => None,
    }
}

/// Relies on `surrealdb_core::sql::parse`: reads the first parsed statement
/// and reports whether it is a table or field definition, moving out a field
/// definition's name and its kind's canonical text.
#[verifier::external_body]
pub(crate) fn parse_define_shape(text: &str) -> (r: DefineShape)
    ensures
        r@ == define_shape_of(text@),
{
    match surrealdb_core::sql::parse(text).iter().flat_map(|q| (q.0).0.first()).next() {
        Some(Statement::Define(DefineStatement::Table(_))) => DefineShape::Table,
        Some(Statement::Define(DefineStatement::Field(f))) => DefineShape::Field(FieldHeader {
            name: f.name.to_string(),
            kind: f.kind.as_ref().map(|k| k.to_string()),
        }),
        Some(Statement::Define(_)) => DefineShape::OtherDefine,
        Some(_) => DefineShape::NotDefine,
        None => DefineShape::NoStatement,
    }
}

/// Relies on `surrealdb_core::sql::parse`: reads the `ASSERT` expression of
/// the first parsed statement, when it is a field definition, and reports
/// whether it is a binary comparison, with its operator and whether either
/// operand is the none sentinel.
#[verifier::external_body]
pub(crate) fn parse_field_assert(text: &str) -> (r: AssertShape)
    ensures
        r == field_assert_of(text@),
{
    match surrealdb_core::sql::parse(text).iter().flat_map(|q| (q.0).0.first()).next() {
        Some(Statement::Define(DefineStatement::Field(f))) => match f.assert.as_ref() {
            None => AssertShape::Absent,
            Some(Value::Expression(e)) => match &**e {
                Expression::Binary { l, o, r } => AssertShape::Binary {
                    not_equal: *o == Operator::NotEqual,
                    left_none: l.is_none(),
                    right_none: r.is_none(),
                },
                _ => AssertShape::OtherShape,
            },
            Some(_) => AssertShape::OtherShape,
        },
        _ => AssertShape::Absent,
    }
}

/// What decoding a definition text into a field definition returns: the
/// decoded field exactly when the text parses to a single field-definition
/// statement, and the precise error otherwise.
pub open spec fn spec_decode_field(text: Seq<char>) -> Result<FieldDefV, ErrorV> {
    match statement_texts(text) {
        None => Err(ErrorV::ParseFailure { source: text }),
        Some(ts) => {
            if ts.len() != 1 {
                Err(ErrorV::ResultCountMismatch { expected: 1 as nat, got: ts.len() })
            } else {
                match define_shape_of(text) {
                    DefineShapeV::Field(h) => Ok(FieldDefV {
                        name: h.name,
                        kind: h.kind,
                        assert: field_assert_of(text),
                    }),
                    s => Err(ErrorV::UnexpectedType {
                        expected: "a field definition"@,
                        got: spec_shape_label(s),
                    }),
                }
            }
        },
    }
}

/// What decoding a definition text as a table definition returns.
pub open spec fn spec_decode_table(text: Seq<char>) -> Result<(), ErrorV> {
    match statement_texts(text) {
        None => Err(ErrorV::ParseFailure { source: text }),
        Some(ts) => {
            if ts.len() != 1 {
                Err(ErrorV::ResultCountMismatch { expected: 1 as nat, got: ts.len() })
            } else {
                match define_shape_of(text) {
                    DefineShapeV::Table => Ok(()),
                    s => Err(ErrorV::UnexpectedType {
                        expected: "a table definition"@,
                        got: spec_shape_label(s),
                    }),
                }
            }
        },
    }
}

/// Decodes a definition text into a structured field definition: the text
/// must parse to exactly one statement, and that statement must define a
/// field.
pub fn decode_field_definition(text: &String) -> (r: Result<FieldDef, Error>)
    ensures
        r matches Ok(fd) ==> spec_decode_field(text@) matches Ok(v) && fd@ == v,
        r matches Err(e) ==> spec_decode_field(text@) matches Err(ev) && e@ == ev,
{
    let texts = match parse_statement_texts(text.as_str()) {
        Some(ts) => ts,
        None => {
            return Err(Error::ParseFailure { source: text.clone() });
        },
    };
    if texts.len() != 1 {
        return Err(Error::ResultCountMismatch { expected: 1, got: texts.len() });
    }
    match parse_define_shape(text.as_str()) {
        DefineShape::Field(h) => {
            let assert = parse_field_assert(text.as_str());
            Ok(FieldDef { name: h.name, kind: h.kind, assert })
        },
        s => Err(Error::UnexpectedType {
            expected: "a field definition".to_owned(),
            got: shape_label(&s),
        }),
    }
}

/// Checks that a definition text decodes to a table definition: the text
/// must parse to exactly one statement, and that statement must define a
/// table.
pub fn decode_table_definition(text: &String) -> (r: Result<(), Error>)
    ensures
        r is Ok <==> spec_decode_table(text@) is Ok,
        r matches Err(e) ==> spec_decode_table(text@) matches Err(ev) && e@ == ev,
{
    let texts = match parse_statement_texts(text.as_str()) {
        Some(ts) => ts,
        None => {
            return Err(Error::ParseFailure { source: text.clone() });
        },
    };
    if texts.len() != 1 {
        return Err(Error::ResultCountMismatch { expected: 1, got: texts.len() });
    }
    match parse_define_shape(text.as_str()) {
        DefineShape::Table => Ok(()),
        s => Err(Error::UnexpectedType {
            expected: "a table definition".to_owned(),
            got: shape_label(&s),
        }),
    }
}

} // verus!
