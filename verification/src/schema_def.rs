//! Fields, schemas and schema files of the IR, with their models.
use std::collections::BTreeMap;
use vstd::prelude::*;

use crate::arrow_type::{ArrowType, SpecType, type_view};

verus! {

/// A single field in an Arrow schema.
#[derive(Debug, PartialEq)]
pub struct ArrowFieldDef {
    pub name: String,
    pub arrow_type: ArrowType,
    pub nullable: bool,
    pub metadata: BTreeMap<String, String>,
}

/// The model of a field.
pub struct SpecField {
    pub name: Seq<char>,
    pub arrow_type: SpecType,
    pub nullable: bool,
    pub metadata: Map<String, String>,
}

pub open spec fn field_view(f: ArrowFieldDef) -> SpecField
    decreases f,
{
    SpecField {
        name: f.name@,
        arrow_type: type_view(f.arrow_type),
        nullable: f.nullable,
        metadata: f.metadata@,
    }
}

pub open spec fn fields_view(fs: Seq<ArrowFieldDef>) -> Seq<SpecField>
    decreases fs,
{
    Seq::new(fs.len(), |i: int| if 0 <= i < fs.len() { field_view(fs[i]) } else { arbitrary() })
}

impl View for ArrowFieldDef {
    type V = SpecField;

    open spec fn view(&self) -> SpecField {
        field_view(*self)
    }
}

impl Clone for ArrowFieldDef {
    fn clone(&self) -> (r: Self)
        ensures
            r@ == self@,
    {
        crate::arrow_type::clone_field(self)
    }
}

/// A nullable field of the given name and type with no metadata.
pub open spec fn new_field(name: Seq<char>, t: SpecType) -> SpecField {
    SpecField { name, arrow_type: t, nullable: true, metadata: Map::empty() }
}

impl ArrowFieldDef {
    /// A nullable field of the given name and type, with no metadata.
    pub fn new(name: &str, arrow_type: ArrowType) -> (r: ArrowFieldDef)
        ensures
            r@ == new_field(name@, arrow_type@),
    {
        ArrowFieldDef { name: name.to_owned(), arrow_type, nullable: true, metadata: BTreeMap::new() }
    }

    /// The same field with its nullability set to `nullable`.
    pub fn with_nullable(self, nullable: bool) -> (r: ArrowFieldDef)
        ensures
            r@ == (SpecField { nullable, ..self@ }),
    {
        let mut s = self;
        s.nullable = nullable;
        s
    }
}

/// A named Arrow schema definition.
#[derive(Debug, Clone, PartialEq)]
pub struct ArrowSchemaDef {
    pub name: String,
    pub fields: Vec<ArrowFieldDef>,
    pub metadata: BTreeMap<String, String>,
}

pub struct SpecSchema {
    pub name: Seq<char>,
    pub fields: Seq<SpecField>,
    pub metadata: Map<String, String>,
}

impl View for ArrowSchemaDef {
    type V = SpecSchema;

    open spec fn view(&self) -> SpecSchema {
        SpecSchema { name: self.name@, fields: fields_view(self.fields@), metadata: self.metadata@ }
    }
}

/// Top-level schema file containing one or more schema definitions.
#[derive(Debug, Clone, PartialEq)]
pub struct ArrowSchemaFile {
    pub schemas: Vec<ArrowSchemaDef>,
}

impl View for ArrowSchemaFile {
    type V = Seq<SpecSchema>;

    open spec fn view(&self) -> Seq<SpecSchema> {
        self.schemas@.map_values(|s: ArrowSchemaDef| s@)
    }
}

} // verus!
