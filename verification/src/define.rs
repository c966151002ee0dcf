//! Structured shapes recovered from statement text: the narrow slice of a
//! parsed statement that the schema pipeline reads.

use vstd::prelude::*;

verus! {

/// The shape of a field's validation expression, as far as the nullability
/// classifier reads it: a single binary comparison is recorded with its
/// operator and whether either operand is the none sentinel; every other
/// expression shape is opaque.
#[derive(Clone, Copy, Debug, PartialEq, Eq, Structural)]
pub enum AssertShape {
    /// No validation expression is attached to the field.
    Absent,
    /// A single binary comparison.
    Binary { not_equal: bool, left_none: bool, right_none: bool },
    /// Any other expression (a literal, a conjunction, a disjunction, ...).
    OtherShape,
}

/// A decoded field definition: the field's name, its declared type kind in
/// the engine's canonical spelling (absent when the field declares none),
/// and the shape of its validation expression.
#[derive(Debug, Clone)]
pub struct FieldDef {
    pub name: String,
    pub kind: Option<String>,
    pub assert: AssertShape,
}

/// The header of a field definition: its name and declared kind, before the
/// validation expression is read.
#[derive(Debug)]
pub struct FieldHeader {
    pub name: String,
    pub kind: Option<String>,
}

/// The mathematical shape of a [`FieldHeader`].
pub struct FieldHeaderV {
    pub name: Seq<char>,
    pub kind: Option<Seq<char>>,
}

impl View for FieldHeader {
    type V = FieldHeaderV;

    open spec fn view(&self) -> FieldHeaderV {
        FieldHeaderV {
            name: self.name@,
            kind: match self.kind {
                Some(k) => Some(k@),
                None => None,
            },
        }
    }
}

/// The mathematical shape of a [`FieldDef`].
pub struct FieldDefV {
    pub name: Seq<char>,
    pub kind: Option<Seq<char>>,
    pub assert: AssertShape,
}

impl View for FieldDef {
    type V = FieldDefV;

    open spec fn view(&self) -> FieldDefV {
        FieldDefV {
            name: self.name@,
            kind: match self.kind {
                Some(k) => Some(k@),
                None => None,
            },
            assert: self.assert,
        }
    }
}

/// What the first statement of a parsed text turned out to be.
#[derive(Debug)]
pub enum DefineShape {
    /// The text held no statement at all (or could not be parsed).
    NoStatement,
    /// The first statement is not a definition statement.
    NotDefine,
    /// A definition statement, but neither a table nor a field definition.
    OtherDefine,
    /// A table definition.
    Table,
    /// A field definition, with its name and declared kind.
    Field(FieldHeader),
}

/// The mathematical shape of a [`DefineShape`].
pub enum DefineShapeV {
    NoStatement,
    NotDefine,
    OtherDefine,
    Table,
    Field(FieldHeaderV),
}

impl View for DefineShape {
    type V = DefineShapeV;

    open spec fn view(&self) -> DefineShapeV {
        match self {
            DefineShape::NoStatement => DefineShapeV::NoStatement,
            DefineShape::NotDefine => DefineShapeV::NotDefine,
            DefineShape::OtherDefine => DefineShapeV::OtherDefine,
            DefineShape::Table => DefineShapeV::Table,
            DefineShape::Field(h) => DefineShapeV::Field(h@),
        }
    }
}

/// A short description of a decoded shape, for error reports.
pub open spec fn spec_shape_label(s: DefineShapeV) -> Seq<char> {
    match s {
        DefineShapeV::NoStatement => "no statement"@,
        DefineShapeV::NotDefine => "a statement that defines nothing"@,
        DefineShapeV::OtherDefine => "a definition of another kind"@,
        DefineShapeV::Table => "a table definition"@,
        DefineShapeV::Field(_) => "a field definition"@,
    }
}

/// Builds the description that [`spec_shape_label`] gives.
pub fn shape_label(s: &DefineShape) -> (r: String)
    ensures
        r@ == spec_shape_label(s@),
{
    match s {
        DefineShape::NoStatement => "no statement".to_owned(),
        DefineShape::NotDefine => "a statement that defines nothing".to_owned(),
        DefineShape::OtherDefine => "a definition of another kind".to_owned(),
        DefineShape::Table => "a table definition".to_owned(),
        DefineShape::Field(_) => "a field definition".to_owned(),
    }
}

} // verus!
