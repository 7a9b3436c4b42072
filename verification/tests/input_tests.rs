use std::collections::BTreeMap;

use arrowc::arrow_type::ArrowType;
use arrowc::error::SchemaError;
use arrowc::input::{default_true, InputField, InputSchema, InputSchemaFile, InputType};

fn field(name: &str, ty: InputType, nullable: bool) -> InputField {
    InputField {
        name: name.into(),
        type_: ty,
        nullable,
        metadata: BTreeMap::new(),
    }
}

fn simple(s: &str) -> InputType {
    InputType::Simple(s.into())
}

#[test]
fn test_default_nullable_is_true() {
    assert!(default_true());
}

#[test]
fn test_into_ir_keeps_names_order_and_nullability() {
    let mut meta = BTreeMap::new();
    meta.insert("owner".to_string(), "team".to_string());
    let file = InputSchemaFile {
        version: 1,
        schemas: vec![
            InputSchema {
                name: "Test".into(),
                metadata: meta.clone(),
                fields: vec![
                    field("id", simple("int64"), false),
                    field("name", simple(" utf8 "), true),
                    field(
                        "location",
                        InputType::InlineStruct {
                            fields: vec![
                                field("lat", simple("float64"), true),
                                field("lng", simple("double"), false),
                            ],
                        },
                        true,
                    ),
                ],
            },
            InputSchema {
                name: "Other".into(),
                metadata: BTreeMap::new(),
                fields: vec![],
            },
        ],
    };
    let ir = file.into_ir().unwrap();
    assert_eq!(ir.schemas.len(), 2);
    let s = &ir.schemas[0];
    assert_eq!(s.name, "Test");
    assert_eq!(s.metadata, meta);
    let names: Vec<&str> = s.fields.iter().map(|f| f.name.as_str()).collect();
    assert_eq!(names, vec!["id", "name", "location"]);
    assert!(!s.fields[0].nullable);
    assert_eq!(s.fields[0].arrow_type, ArrowType::Int64);
    assert_eq!(s.fields[1].arrow_type, ArrowType::Utf8);
    match &s.fields[2].arrow_type {
        ArrowType::Struct { fields } => {
            assert_eq!(fields.len(), 2);
            assert_eq!(fields[1].name, "lng");
            assert!(!fields[1].nullable);
            assert_eq!(fields[1].arrow_type, ArrowType::Float64);
        }
        other => panic!("expected Struct, got {other:?}"),
    }
    assert_eq!(ir.schemas[1].name, "Other");
}

#[test]
fn test_into_ir_reports_the_first_bad_type() {
    let file = InputSchemaFile {
        version: 1,
        schemas: vec![InputSchema {
            name: "Test".into(),
            metadata: BTreeMap::new(),
            fields: vec![
                field("a", simple("int32"), true),
                field("b", simple("foo"), true),
                field("c", simple("bar"), true),
            ],
        }],
    };
    match file.into_ir() {
        Err(SchemaError::InvalidType(m)) => assert_eq!(m, "unknown type: foo"),
        Err(e) => panic!("unexpected error {e:?}"),
        Ok(_) => panic!("expected an error"),
    }
}

#[test]
fn test_try_into_ir_declines_what_would_panic() {
    let file = InputSchemaFile {
        version: 1,
        schemas: vec![InputSchema {
            name: "Test".into(),
            metadata: BTreeMap::new(),
            fields: vec![field("a", simple("x]y["), true)],
        }],
    };
    assert!(file.try_into_ir().is_none());
}

#[test]
fn test_into_ir_first_bad_type_in_depth_first_order() {
    let file = InputSchemaFile {
        version: 1,
        schemas: vec![InputSchema {
            name: "Test".into(),
            metadata: BTreeMap::new(),
            fields: vec![
                field(
                    "s",
                    InputType::InlineStruct {
                        fields: vec![
                            field("ok", simple("int8"), true),
                            field("bad", simple("decimal128(10)"), true),
                        ],
                    },
                    true,
                ),
                field("later", simple("nope"), true),
            ],
        }],
    };
    match file.into_ir() {
        Err(SchemaError::InvalidType(m)) => {
            assert_eq!(m, "decimal requires (precision, scale), got: (10)")
        }
        Err(e) => panic!("unexpected error {e:?}"),
        Ok(_) => panic!("expected an error"),
    }
}
