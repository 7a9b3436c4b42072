use arrowc::arrow_type::{ArrowType, TimeUnit};
use arrowc::input::parse_type_string;

#[test]
fn test_parse_bare_scalars() {
    assert_eq!(parse_type_string("int32").unwrap(), ArrowType::Int32);
    assert_eq!(parse_type_string("float64").unwrap(), ArrowType::Float64);
    assert_eq!(parse_type_string("utf8").unwrap(), ArrowType::Utf8);
    assert_eq!(parse_type_string("string").unwrap(), ArrowType::Utf8);
    assert_eq!(parse_type_string("boolean").unwrap(), ArrowType::Boolean);
    assert_eq!(parse_type_string("bool").unwrap(), ArrowType::Boolean);
    assert_eq!(parse_type_string("date32").unwrap(), ArrowType::Date32);
    assert_eq!(parse_type_string("binary").unwrap(), ArrowType::Binary);
    assert_eq!(
        parse_type_string("large_utf8").unwrap(),
        ArrowType::LargeUtf8
    );
}

#[test]
fn test_parse_timestamp() {
    // Arrange
    let input = "timestamp[us, UTC]";

    // Act
    let result = parse_type_string(input).unwrap();

    // Assert
    assert_eq!(
        result,
        ArrowType::Timestamp {
            unit: TimeUnit::Microsecond,
            timezone: Some("UTC".into()),
        }
    );
}

#[test]
fn test_parse_timestamp_without_timezone() {
    // Arrange
    let input = "timestamp[ns]";

    // Act
    let result = parse_type_string(input).unwrap();

    // Assert
    assert_eq!(
        result,
        ArrowType::Timestamp {
            unit: TimeUnit::Nanosecond,
            timezone: None,
        }
    );
}

#[test]
fn test_parse_duration() {
    assert_eq!(
        parse_type_string("duration[ms]").unwrap(),
        ArrowType::Duration {
            unit: TimeUnit::Millisecond
        }
    );
}

#[test]
fn test_parse_decimal128() {
    // Arrange
    let input = "decimal128(10, 2)";

    // Act
    let result = parse_type_string(input).unwrap();

    // Assert
    assert_eq!(
        result,
        ArrowType::Decimal128 {
            precision: 10,
            scale: 2
        }
    );
}

#[test]
fn test_parse_fixed_size_binary() {
    assert_eq!(
        parse_type_string("fixed_size_binary(256)").unwrap(),
        ArrowType::FixedSizeBinary { byte_width: 256 }
    );
}

#[test]
fn test_parse_list() {
    // Arrange
    let input = "list<utf8>";

    // Act
    let result = parse_type_string(input).unwrap();

    // Assert
    match result {
        ArrowType::List { element } => {
            assert_eq!(element.name, "item");
            assert_eq!(element.arrow_type, ArrowType::Utf8);
            assert!(element.nullable);
        }
        other => panic!("expected List, got {other:?}"),
    }
}

#[test]
fn test_parse_nested_list() {
    // Arrange
    let input = "list<list<int32>>";

    // Act
    let result = parse_type_string(input).unwrap();

    // Assert
    match result {
        ArrowType::List { element } => match &element.arrow_type {
            ArrowType::List { element: inner } => {
                assert_eq!(inner.arrow_type, ArrowType::Int32);
            }
            other => panic!("expected inner List, got {other:?}"),
        },
        other => panic!("expected outer List, got {other:?}"),
    }
}

#[test]
fn test_parse_map() {
    // Arrange
    let input = "map<utf8, int32>";

    // Act
    let result = parse_type_string(input).unwrap();

    // Assert
    match result {
        ArrowType::MapType {
            key,
            value,
            keys_sorted,
        } => {
            assert_eq!(key.arrow_type, ArrowType::Utf8);
            assert!(!key.nullable);
            assert_eq!(value.arrow_type, ArrowType::Int32);
            assert!(!keys_sorted);
        }
        other => panic!("expected Map, got {other:?}"),
    }
}

#[test]
fn test_parse_dictionary() {
    // Arrange
    let input = "dictionary<int8, utf8>";

    // Act
    let result = parse_type_string(input).unwrap();

    // Assert
    assert_eq!(
        result,
        ArrowType::Dictionary {
            index_type: Box::new(ArrowType::Int8),
            value_type: Box::new(ArrowType::Utf8),
        }
    );
}

#[test]
fn test_parse_list_of_timestamp() {
    // Arrange
    let input = "list<timestamp[us, UTC]>";

    // Act
    let result = parse_type_string(input).unwrap();

    // Assert
    match result {
        ArrowType::List { element } => {
            assert_eq!(
                element.arrow_type,
                ArrowType::Timestamp {
                    unit: TimeUnit::Microsecond,
                    timezone: Some("UTC".into()),
                }
            );
        }
        other => panic!("expected List, got {other:?}"),
    }
}

#[test]
fn test_parse_struct_type_string() {
    // Arrange
    let input = "struct<name: utf8, qty: int32>";

    // Act
    let result = parse_type_string(input).unwrap();

    // Assert
    match result {
        ArrowType::Struct { fields } => {
            assert_eq!(fields.len(), 2);
            assert_eq!(fields[0].name, "name");
            assert_eq!(fields[0].arrow_type, ArrowType::Utf8);
            assert_eq!(fields[1].name, "qty");
            assert_eq!(fields[1].arrow_type, ArrowType::Int32);
        }
        other => panic!("expected Struct, got {other:?}"),
    }
}

#[test]
fn test_parse_list_of_struct() {
    // Arrange
    let input = "list<struct<name: utf8, qty: int32>>";

    // Act
    let result = parse_type_string(input).unwrap();

    // Assert
    match result {
        ArrowType::List { element } => match &element.arrow_type {
            ArrowType::Struct { fields } => {
                assert_eq!(fields.len(), 2);
                assert_eq!(fields[0].name, "name");
                assert_eq!(fields[0].arrow_type, ArrowType::Utf8);
                assert_eq!(fields[1].name, "qty");
                assert_eq!(fields[1].arrow_type, ArrowType::Int32);
            }
            other => panic!("expected inner Struct, got {other:?}"),
        },
        other => panic!("expected List, got {other:?}"),
    }
}

#[test]
fn test_parse_struct_with_nested_list() {
    // Arrange
    let input = "struct<name: utf8, scores: list<float64>>";

    // Act
    let result = parse_type_string(input).unwrap();

    // Assert
    match result {
        ArrowType::Struct { fields } => {
            assert_eq!(fields.len(), 2);
            assert_eq!(fields[0].name, "name");
            assert_eq!(fields[0].arrow_type, ArrowType::Utf8);
            assert_eq!(fields[1].name, "scores");
            match &fields[1].arrow_type {
                ArrowType::List { element } => {
                    assert_eq!(element.arrow_type, ArrowType::Float64);
                }
                other => panic!("expected List, got {other:?}"),
            }
        }
        other => panic!("expected Struct, got {other:?}"),
    }
}

#[test]
fn test_parse_invalid_type_returns_error() {
    assert!(parse_type_string("").is_err());
    assert!(parse_type_string("foobar").is_err());
    assert!(parse_type_string("timestamp[invalid]").is_err());
}

#[test]
fn test_empty_field_name_in_struct_parses_but_validation_catches() {
    // Parser accepts empty field names — validation rejects them.
    let result = parse_type_string("struct<:int32>");
    assert!(result.is_ok()); // Parser allows it
                             // (validate.rs rejects the empty name)
}

#[test]
fn test_decimal_overflow_precision_rejected() {
    // Arrange & Act
    let result = parse_type_string("decimal128(256, 2)");

    // Assert — parser now rejects precision overflow
    assert!(result.is_err());
    assert!(result.unwrap_err().to_string().contains("out of range"));
}

#[test]
fn test_decimal_overflow_scale_rejected() {
    // Arrange & Act
    let result = parse_type_string("decimal128(10, 128)");

    // Assert — parser now rejects scale overflow
    assert!(result.is_err());
    assert!(result.unwrap_err().to_string().contains("out of range"));
}

#[test]
fn test_negative_fixed_size_list_rejected() {
    // Arrange & Act
    let result = parse_type_string("fixed_size_list<int32>(-1)");

    // Assert
    assert!(result.is_err());
    assert!(result.unwrap_err().to_string().contains("must be positive"));
}

#[test]
fn test_negative_fixed_size_binary_rejected() {
    // Arrange & Act
    let result = parse_type_string("fixed_size_binary(-256)");

    // Assert
    assert!(result.is_err());
    assert!(result.unwrap_err().to_string().contains("must be positive"));
}

#[test]
fn test_time32_with_microsecond_parses_but_validation_catches() {
    // Parser accepts any TimeUnit — validation checks Arrow constraints.
    let result = parse_type_string("time32[us]");
    assert!(result.is_ok());
    assert_eq!(
        result.unwrap(),
        ArrowType::Time32 {
            unit: TimeUnit::Microsecond
        }
    );
}

#[test]
fn test_time64_with_second_parses_but_validation_catches() {
    let result = parse_type_string("time64[s]");
    assert!(result.is_ok());
    assert_eq!(
        result.unwrap(),
        ArrowType::Time64 {
            unit: TimeUnit::Second
        }
    );
}

#[test]
fn test_decimal_scale_greater_than_precision_parses_but_validation_catches() {
    // Parser accepts any precision/scale in range — validation checks Arrow semantics.
    let result = parse_type_string("decimal128(2, 10)");
    assert!(result.is_ok());
    match result.unwrap() {
        ArrowType::Decimal128 { precision, scale } => {
            assert_eq!(precision, 2);
            assert_eq!(scale, 10);
        }
        other => panic!("expected Decimal128, got {other:?}"),
    }
}

#[test]
fn test_list_with_empty_inner_type() {
    assert!(parse_type_string("list<>").is_err());
}

#[test]
fn test_map_with_one_arg() {
    assert!(parse_type_string("map<int32>").is_err());
}

#[test]
fn test_struct_with_trailing_comma() {
    assert!(parse_type_string("struct<a:int32,>").is_err());
}

#[test]
fn test_struct_field_without_colon() {
    assert!(parse_type_string("struct<name>").is_err());
}
