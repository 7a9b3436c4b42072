pub mod arrow_type;
pub mod error;
pub mod input;
pub mod schema_def;
pub mod text;
pub mod type_parser;
pub mod type_spec;
pub mod validate;
pub mod codegen;
pub mod compiler;
pub mod roundtrip;
