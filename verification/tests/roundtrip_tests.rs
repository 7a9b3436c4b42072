use std::collections::BTreeMap;

use arrowc::arrow_type::{ArrowType, IntervalUnit, TimeUnit};
use arrowc::error::SchemaError;
use arrowc::input::parse_type_string;
use arrowc::schema_def::ArrowFieldDef;

fn item(t: ArrowType) -> Box<ArrowFieldDef> {
    Box::new(ArrowFieldDef::new("item", t))
}

fn roundtrip(t: ArrowType) {
    let printed = t.to_string();
    let parsed = parse_type_string(&printed).unwrap_or_else(|e| panic!("{printed}: {e:?}"));
    assert_eq!(parsed, t, "printed as {printed}");
}

#[test]
fn test_print_then_parse_leaf_types() {
    for t in [
        ArrowType::Null,
        ArrowType::Boolean,
        ArrowType::Int8,
        ArrowType::UInt64,
        ArrowType::Float16,
        ArrowType::Float64,
        ArrowType::Utf8,
        ArrowType::LargeUtf8,
        ArrowType::Binary,
        ArrowType::LargeBinary,
        ArrowType::Date32,
        ArrowType::Date64,
        ArrowType::FixedSizeBinary { byte_width: 16 },
        ArrowType::Time32 { unit: TimeUnit::Millisecond },
        ArrowType::Time64 { unit: TimeUnit::Nanosecond },
        ArrowType::Duration { unit: TimeUnit::Second },
        ArrowType::Timestamp { unit: TimeUnit::Microsecond, timezone: None },
        ArrowType::Timestamp {
            unit: TimeUnit::Microsecond,
            timezone: Some("America/New_York".into()),
        },
        ArrowType::Interval { unit: IntervalUnit::YearMonth },
        ArrowType::Interval { unit: IntervalUnit::DayTime },
        ArrowType::Interval { unit: IntervalUnit::MonthDayNano },
        ArrowType::Decimal128 { precision: 10, scale: -2 },
        ArrowType::Decimal256 { precision: 255, scale: 127 },
    ] {
        roundtrip(t);
    }
}

#[test]
fn test_print_then_parse_nested_types() {
    roundtrip(ArrowType::List {
        element: item(ArrowType::Timestamp {
            unit: TimeUnit::Second,
            timezone: Some("UTC".into()),
        }),
    });
    roundtrip(ArrowType::LargeList {
        element: item(ArrowType::List { element: item(ArrowType::Int32) }),
    });
    roundtrip(ArrowType::FixedSizeList { element: item(ArrowType::Float32), size: 3 });
    roundtrip(ArrowType::MapType {
        key: Box::new(ArrowFieldDef::new("key", ArrowType::Utf8).with_nullable(false)),
        value: Box::new(ArrowFieldDef::new(
            "value",
            ArrowType::Decimal128 { precision: 10, scale: 2 },
        )),
        keys_sorted: false,
    });
    roundtrip(ArrowType::Dictionary {
        index_type: Box::new(ArrowType::Int8),
        value_type: Box::new(ArrowType::MapType {
            key: Box::new(ArrowFieldDef::new("key", ArrowType::Int32).with_nullable(false)),
            value: Box::new(ArrowFieldDef::new("value", ArrowType::Utf8)),
            keys_sorted: false,
        }),
    });
}

#[test]
fn test_printed_forms() {
    assert_eq!(ArrowType::Boolean.to_string(), "boolean");
    assert_eq!(
        ArrowType::Timestamp { unit: TimeUnit::Microsecond, timezone: Some("UTC".into()) }
            .to_string(),
        "timestamp[us, UTC]"
    );
    assert_eq!(
        ArrowType::FixedSizeList { element: item(ArrowType::Int32), size: 4 }.to_string(),
        "fixed_size_list<int32>(4)"
    );
    assert_eq!(
        ArrowType::Decimal128 { precision: 10, scale: -2 }.to_string(),
        "decimal128(10, -2)"
    );
    assert_eq!(
        ArrowType::Struct { fields: vec![ArrowFieldDef::new("a", ArrowType::Int32)] }.to_string(),
        "struct"
    );
    assert_eq!(
        ArrowType::Union { fields: vec![], mode: arrowc::arrow_type::UnionMode::Dense }.to_string(),
        "union"
    );
}

#[test]
fn test_struct_does_not_print_back() {
    let t = ArrowType::Struct { fields: vec![ArrowFieldDef::new("a", ArrowType::Int32)] };
    let printed = t.to_string();
    assert!(parse_type_string(&printed).is_err());
}

#[test]
fn test_time_unit_print_then_parse() {
    for u in [
        TimeUnit::Second,
        TimeUnit::Millisecond,
        TimeUnit::Microsecond,
        TimeUnit::Nanosecond,
    ] {
        assert_eq!(TimeUnit::parse(&u.to_string()), Some(u));
    }
    assert_eq!(TimeUnit::Microsecond.to_string(), "us");
    assert_eq!(TimeUnit::parse("  Nanosecond "), Some(TimeUnit::Nanosecond));
    assert_eq!(TimeUnit::parse("millisecond"), Some(TimeUnit::Millisecond));
    assert_eq!(TimeUnit::parse("minute"), None);
}

#[test]
fn test_surrounding_whitespace_is_ignored() {
    let plain = parse_type_string("map<utf8, list<int32>>").unwrap();
    let padded = parse_type_string(" \t map<utf8, list<int32>>\n ").unwrap();
    assert_eq!(plain, padded);
    let e1 = parse_type_string("foo").unwrap_err();
    let e2 = parse_type_string("  foo  ").unwrap_err();
    assert_eq!(e1.to_string(), e2.to_string());
    assert_eq!(e1.to_string(), "invalid type: unknown type: foo");
}

#[test]
fn test_parse_error_messages() {
    let cases = [
        ("", "invalid type: empty type string"),
        ("list<int32", "invalid type: unmatched '<' in type: list<int32"),
        ("map<int32>", "invalid type: expected exactly 2 comma-separated type arguments, got 1: int32"),
        ("timestamp[us", "invalid type: unmatched '[' in type: timestamp[us"),
        ("time32[hour]", "invalid type: invalid time unit: hour"),
        ("interval[week]", "invalid type: invalid interval unit: week"),
        ("foo[bar]", "invalid type: unknown bracketed type: foo"),
        ("decimal128(10)", "invalid type: decimal requires (precision, scale), got: (10)"),
        ("decimal128(x, 2)", "invalid type: invalid precision: x"),
        ("decimal128(10, y)", "invalid type: invalid scale: y"),
        ("fixed_size_binary(abc)", "invalid type: invalid byte_width for fixed_size_binary: abc"),
        ("blob(3)", "invalid type: unknown parameterized type: blob"),
        ("fixed_size_list<int32>", "invalid type: fixed_size_list requires (N) suffix, got: "),
        ("fixed_size_list<int32>(x)", "invalid type: fixed_size_list: invalid size: x"),
        ("set<int32>", "invalid type: unknown generic type: set"),
        ("struct<a>", "invalid type: struct field must be 'name: type', got: a"),
        ("decimal128(300, 2)", "invalid type: decimal precision 300 out of range (max 255)"),
        ("decimal128(10, -200)", "invalid type: decimal scale -200 out of range (-128..=127)"),
    ];
    for (input, message) in cases {
        let err = parse_type_string(input).unwrap_err();
        assert_eq!(err.to_string(), message, "for {input:?}");
    }
}

#[test]
fn test_schema_error_texts() {
    assert_eq!(SchemaError::ParseError("x".into()).to_string(), "parse error: x");
    assert_eq!(SchemaError::InvalidType("y".into()).to_string(), "invalid type: y");
    assert_eq!(SchemaError::Validation("z".into()).to_string(), "validation error: z");
}

#[test]
fn test_field_builders() {
    let f = ArrowFieldDef::new("a", ArrowType::Int32);
    assert!(f.nullable);
    assert!(f.metadata.is_empty());
    let g = f.with_nullable(false);
    assert!(!g.nullable);
    assert_eq!(g.name, "a");
    let _ = BTreeMap::<String, String>::new();
}

#[test]
fn test_parse_print_parse_keeps_the_type() {
    for s in [
        " list< timestamp[ second , Europe/Paris ] > ",
        "timestamp[us, a[b]",
        "timestamp[ns, (UTC)]",
        "map<utf8 , fixed_size_list<int8>( 2 )>",
        "dictionary< int16, large_list<decimal256(40,-3)> >",
        "fixed_size_binary( 7 )",
    ] {
        let t = parse_type_string(s).unwrap();
        let printed = t.to_string();
        assert_eq!(parse_type_string(&printed).unwrap(), t, "{s} printed as {printed}");
    }
}

#[test]
fn test_bracketed_timezone_in_map_key_does_not_print_back() {
    let t = parse_type_string("map<timestamp[us, a(]x), int32>").unwrap();
    let printed = t.to_string();
    assert_eq!(printed, "map<timestamp[us, a(], int32>");
    assert!(parse_type_string(&printed).is_err());
}

#[test]
fn test_bracketed_timezone_nested_prints_back() {
    for s in [
        "list<timestamp[us, a)]>",
        "fixed_size_list<timestamp[ms, (x]>(2)",
        "map<utf8, timestamp[s, Etc/(UTC)]>",
        "dictionary<int32, large_list<timestamp[ns, [a, b]]>>",
    ] {
        let t = parse_type_string(s).unwrap();
        let printed = t.to_string();
        assert_eq!(parse_type_string(&printed).unwrap(), t, "{s} printed as {printed}");
    }
}
