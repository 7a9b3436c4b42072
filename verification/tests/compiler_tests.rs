use std::collections::BTreeMap;

use arrowc::arrow_type::ArrowType;
use arrowc::compiler::{
    compile_file, detect_format, format_from_extension, parse_format, resolve_format,
    CompileError, InputFormat,
};
use arrowc::error::SchemaError;
use arrowc::schema_def::{ArrowFieldDef, ArrowSchemaDef, ArrowSchemaFile};

fn schema(name: &str, fields: Vec<ArrowFieldDef>) -> ArrowSchemaDef {
    ArrowSchemaDef {
        name: name.into(),
        fields,
        metadata: BTreeMap::new(),
    }
}

#[test]
fn test_detect_format_from_extension() {
    assert_eq!(detect_format("schemas/events.json"), Some(InputFormat::Json));
    assert_eq!(detect_format("events.yaml"), Some(InputFormat::Yaml));
    assert_eq!(detect_format("/tmp/a.b/events.yml"), Some(InputFormat::Yaml));
    assert_eq!(detect_format("events.txt"), None);
    assert_eq!(detect_format("events"), None);
    assert_eq!(detect_format("events.JSON"), None);
}

#[test]
fn test_detect_format_uses_the_file_name_only() {
    // A leading dot alone is no extension, and the extension is the last one.
    assert_eq!(detect_format(".json"), None);
    assert_eq!(detect_format("json"), None);
    assert_eq!(detect_format("a.yaml.json"), Some(InputFormat::Json));
    assert_eq!(detect_format("dir.json/file"), None);
}

#[test]
fn test_format_from_extension() {
    assert_eq!(format_from_extension(Some("json")), Some(InputFormat::Json));
    assert_eq!(format_from_extension(Some("yml")), Some(InputFormat::Yaml));
    assert_eq!(format_from_extension(Some("toml")), None);
    assert_eq!(format_from_extension(None), None);
}

#[test]
fn test_parse_format_names() {
    assert_eq!(parse_format("json"), Ok(InputFormat::Json));
    assert_eq!(parse_format("yaml"), Ok(InputFormat::Yaml));
    assert_eq!(parse_format("yml"), Ok(InputFormat::Yaml));
    assert_eq!(
        parse_format("xml"),
        Err("unknown format: xml (expected json or yaml)".to_string())
    );
}

#[test]
fn test_resolve_format_prefers_the_given_format() {
    assert_eq!(resolve_format(Some(InputFormat::Yaml), "a.json").unwrap(), InputFormat::Yaml);
    assert_eq!(resolve_format(None, "a.json").unwrap(), InputFormat::Json);
    match resolve_format(None, "schema.txt") {
        Err(CompileError::Other(m)) => {
            assert_eq!(m, "cannot detect format for 'schema.txt', use --format")
        }
        other => panic!("expected an error, got {other:?}"),
    }
}

#[test]
fn test_compile_file_generates_one_file_per_schema() {
    let file = ArrowSchemaFile {
        schemas: vec![
            schema("UserEvents", vec![ArrowFieldDef::new("id", ArrowType::Int64)]),
            schema("Order", vec![ArrowFieldDef::new("total", ArrowType::Float64)]),
        ],
    };
    let files = compile_file(&file).unwrap();
    let names: Vec<&str> = files.iter().map(|(n, _)| n.as_str()).collect();
    assert_eq!(names, vec!["user_events.rs", "order.rs"]);
}

#[test]
fn test_compile_file_reports_validation_errors() {
    let file = ArrowSchemaFile {
        schemas: vec![
            schema("Test", vec![ArrowFieldDef::new("id", ArrowType::Int64)]),
            schema("Test", vec![ArrowFieldDef::new("id", ArrowType::Int64)]),
        ],
    };
    match compile_file(&file) {
        Err(CompileError::Schema(SchemaError::Validation(m))) => {
            assert_eq!(m, "duplicate schema name: Test")
        }
        other => panic!("expected a validation error, got {:?}", other.map(|v| v.len())),
    }
}
