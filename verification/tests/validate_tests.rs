use std::collections::BTreeMap;

use arrowc::arrow_type::{ArrowType, TimeUnit};
use arrowc::schema_def::{ArrowFieldDef, ArrowSchemaDef, ArrowSchemaFile};
use arrowc::validate::validate;

fn schema_file(name: &str, fields: Vec<ArrowFieldDef>) -> ArrowSchemaFile {
    ArrowSchemaFile {
        schemas: vec![ArrowSchemaDef {
            name: name.into(),
            fields,
            metadata: BTreeMap::new(),
        }],
    }
}

#[test]
fn test_validate_passes_for_valid_schema() {
    // Arrange
    let file = schema_file(
        "Test",
        vec![
            ArrowFieldDef::new("id", ArrowType::Int64),
            ArrowFieldDef::new("name", ArrowType::Utf8),
        ],
    );

    // Act
    let result = validate(&file);

    // Assert
    assert!(result.is_ok());
}

#[test]
fn test_validate_rejects_duplicate_schema_names() {
    // Arrange
    let file = ArrowSchemaFile {
        schemas: vec![
            ArrowSchemaDef {
                name: "Test".into(),
                fields: vec![],
                metadata: BTreeMap::new(),
            },
            ArrowSchemaDef {
                name: "Test".into(),
                fields: vec![],
                metadata: BTreeMap::new(),
            },
        ],
    };

    // Act
    let result = validate(&file);

    // Assert
    assert!(result.is_err());
    let err = result.unwrap_err().to_string();
    assert!(err.contains("duplicate schema name"), "{err}");
}

#[test]
fn test_validate_rejects_duplicate_field_names() {
    // Arrange
    let file = schema_file(
        "Test",
        vec![
            ArrowFieldDef::new("id", ArrowType::Int64),
            ArrowFieldDef::new("id", ArrowType::Utf8),
        ],
    );

    // Act
    let result = validate(&file);

    // Assert
    assert!(result.is_err());
    let err = result.unwrap_err().to_string();
    assert!(err.contains("duplicate field name"), "{err}");
}

#[test]
fn test_validate_rejects_empty_schema_name() {
    // Arrange
    let file = schema_file("", vec![ArrowFieldDef::new("id", ArrowType::Int64)]);

    // Act
    let result = validate(&file);

    // Assert
    assert!(result.is_err());
    assert!(result
        .unwrap_err()
        .to_string()
        .contains("schema name must not be empty"));
}

#[test]
fn test_validate_rejects_empty_field_name() {
    // Arrange
    let file = schema_file("Test", vec![ArrowFieldDef::new("", ArrowType::Int64)]);

    // Act
    let result = validate(&file);

    // Assert
    assert!(result.is_err());
    assert!(result
        .unwrap_err()
        .to_string()
        .contains("field name must not be empty"));
}

#[test]
fn test_validate_rejects_decimal128_precision_zero() {
    // Arrange
    let file = schema_file(
        "Test",
        vec![ArrowFieldDef::new(
            "x",
            ArrowType::Decimal128 {
                precision: 0,
                scale: 0,
            },
        )],
    );

    // Act
    let result = validate(&file);

    // Assert
    assert!(result.is_err());
    assert!(result
        .unwrap_err()
        .to_string()
        .contains("precision must be 1..=38"));
}

#[test]
fn test_validate_rejects_decimal128_precision_over_38() {
    // Arrange
    let file = schema_file(
        "Test",
        vec![ArrowFieldDef::new(
            "x",
            ArrowType::Decimal128 {
                precision: 39,
                scale: 0,
            },
        )],
    );

    // Act
    let result = validate(&file);

    // Assert
    assert!(result.is_err());
    assert!(result
        .unwrap_err()
        .to_string()
        .contains("precision must be 1..=38"));
}

#[test]
fn test_validate_rejects_decimal128_scale_exceeds_precision() {
    // Arrange
    let file = schema_file(
        "Test",
        vec![ArrowFieldDef::new(
            "x",
            ArrowType::Decimal128 {
                precision: 2,
                scale: 10,
            },
        )],
    );

    // Act
    let result = validate(&file);

    // Assert
    assert!(result.is_err());
    assert!(result
        .unwrap_err()
        .to_string()
        .contains("scale must be 0..=2"));
}

#[test]
fn test_validate_accepts_valid_decimal128() {
    // Arrange
    let file = schema_file(
        "Test",
        vec![ArrowFieldDef::new(
            "x",
            ArrowType::Decimal128 {
                precision: 10,
                scale: 2,
            },
        )],
    );

    // Act
    let result = validate(&file);

    // Assert
    assert!(result.is_ok());
}

#[test]
fn test_validate_rejects_time32_microsecond() {
    // Arrange
    let file = schema_file(
        "Test",
        vec![ArrowFieldDef::new(
            "t",
            ArrowType::Time32 {
                unit: TimeUnit::Microsecond,
            },
        )],
    );

    // Act
    let result = validate(&file);

    // Assert
    assert!(result.is_err());
    assert!(result
        .unwrap_err()
        .to_string()
        .contains("time32 only supports Second or Millisecond"));
}

#[test]
fn test_validate_rejects_time32_nanosecond() {
    // Arrange
    let file = schema_file(
        "Test",
        vec![ArrowFieldDef::new(
            "t",
            ArrowType::Time32 {
                unit: TimeUnit::Nanosecond,
            },
        )],
    );

    // Act
    let result = validate(&file);

    // Assert
    assert!(result.is_err());
}

#[test]
fn test_validate_rejects_time64_second() {
    // Arrange
    let file = schema_file(
        "Test",
        vec![ArrowFieldDef::new(
            "t",
            ArrowType::Time64 {
                unit: TimeUnit::Second,
            },
        )],
    );

    // Act
    let result = validate(&file);

    // Assert
    assert!(result.is_err());
    assert!(result
        .unwrap_err()
        .to_string()
        .contains("time64 only supports Microsecond or Nanosecond"));
}

#[test]
fn test_validate_rejects_time64_millisecond() {
    // Arrange
    let file = schema_file(
        "Test",
        vec![ArrowFieldDef::new(
            "t",
            ArrowType::Time64 {
                unit: TimeUnit::Millisecond,
            },
        )],
    );

    // Act
    let result = validate(&file);

    // Assert
    assert!(result.is_err());
}

#[test]
fn test_validate_accepts_valid_time32_second() {
    // Arrange
    let file = schema_file(
        "Test",
        vec![ArrowFieldDef::new(
            "t",
            ArrowType::Time32 {
                unit: TimeUnit::Second,
            },
        )],
    );

    // Act & Assert
    assert!(validate(&file).is_ok());
}

#[test]
fn test_validate_accepts_valid_time64_microsecond() {
    // Arrange
    let file = schema_file(
        "Test",
        vec![ArrowFieldDef::new(
            "t",
            ArrowType::Time64 {
                unit: TimeUnit::Microsecond,
            },
        )],
    );

    // Act & Assert
    assert!(validate(&file).is_ok());
}

#[test]
fn test_validate_rejects_empty_struct_fields() {
    // Arrange
    let file = schema_file(
        "Test",
        vec![ArrowFieldDef::new(
            "s",
            ArrowType::Struct { fields: vec![] },
        )],
    );

    // Act
    let result = validate(&file);

    // Assert
    assert!(result.is_err());
    assert!(result
        .unwrap_err()
        .to_string()
        .contains("at least one field"));
}

#[test]
fn test_validate_rejects_duplicate_struct_subfield_names() {
    // Arrange
    let file = schema_file(
        "Test",
        vec![ArrowFieldDef::new(
            "s",
            ArrowType::Struct {
                fields: vec![
                    ArrowFieldDef::new("x", ArrowType::Int32),
                    ArrowFieldDef::new("x", ArrowType::Float64),
                ],
            },
        )],
    );

    // Act
    let result = validate(&file);

    // Assert
    assert!(result.is_err());
    assert!(result
        .unwrap_err()
        .to_string()
        .contains("duplicate field name"));
}

#[test]
fn test_validate_nested_list_struct_validation() {
    // Arrange — list<struct> with invalid decimal inside
    let file = schema_file(
        "Test",
        vec![ArrowFieldDef::new(
            "items",
            ArrowType::List {
                element: Box::new(ArrowFieldDef::new(
                    "item",
                    ArrowType::Struct {
                        fields: vec![ArrowFieldDef::new(
                            "bad",
                            ArrowType::Decimal128 {
                                precision: 0,
                                scale: 0,
                            },
                        )],
                    },
                )),
            },
        )],
    );

    // Act
    let result = validate(&file);

    // Assert
    assert!(result.is_err());
    assert!(result
        .unwrap_err()
        .to_string()
        .contains("precision must be 1..=38"));
}

#[test]
fn test_validate_rejects_negative_fixed_size_binary() {
    // Arrange
    let file = schema_file(
        "Test",
        vec![ArrowFieldDef::new(
            "b",
            ArrowType::FixedSizeBinary { byte_width: -1 },
        )],
    );

    // Act
    let result = validate(&file);

    // Assert
    assert!(result.is_err());
    assert!(result
        .unwrap_err()
        .to_string()
        .contains("byte_width must be positive"));
}
