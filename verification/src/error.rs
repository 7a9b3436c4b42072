//! Errors of the schema layer.
use vstd::prelude::*;

verus! {

/// What went wrong while loading, parsing or validating a schema.
#[derive(Debug)]
pub enum SchemaError {
    ParseError(String),
    InvalidType(String),
    Validation(String),
}

/// The model of a `SchemaError`.
pub enum SpecError {
    ParseError(Seq<char>),
    InvalidType(Seq<char>),
    Validation(Seq<char>),
}

impl View for SchemaError {
    type V = SpecError;

    open spec fn view(&self) -> SpecError {
        match self {
            SchemaError::ParseError(m) => SpecError::ParseError(m@),
            SchemaError::InvalidType(m) => SpecError::InvalidType(m@),
            SchemaError::Validation(m) => SpecError::Validation(m@),
        }
    }
}

/// How an error reads: its kind, a colon, and its message.
pub open spec fn error_text(e: SpecError) -> Seq<char> {
    match e {
        SpecError::ParseError(m) => "parse error: "@ + m,
        SpecError::InvalidType(m) => "invalid type: "@ + m,
        SpecError::Validation(m) => "validation error: "@ + m,
    }
}

impl SchemaError {
    /// The error as text, e.g. `invalid type: unknown type: foo`.
    pub fn to_string(&self) -> (r: String)
        ensures
            r@ == error_text(self@),
    {
        match self {
            SchemaError::ParseError(m) => crate::text::str2("parse error: ", m.as_str()),
            SchemaError::InvalidType(m) => crate::text::str2("invalid type: ", m.as_str()),
            SchemaError::Validation(m) => crate::text::str2("validation error: ", m.as_str()),
        }
    }
}

} // verus!
