use std::collections::BTreeMap;

use arrowc::arrow_type::ArrowType;
use arrowc::codegen::builder_gen::generate_builder;
use arrowc::codegen::companion_gen::{collect_companions, generate_companions, CompanionInfo};
use arrowc::codegen::plan::{rust_field_ident, CodeOp, CodePlan};
use arrowc::codegen::reader_gen::generate_reader;
use arrowc::codegen::schema_gen::generate_schema;
use arrowc::codegen::{generate_rust, generate_rust_file, rust_file_supported};
use arrowc::schema_def::{ArrowFieldDef, ArrowSchemaDef, ArrowSchemaFile};

/// The text of a plan, one line per operation, indented by block.
fn render(w: &CodePlan) -> String {
    let mut out = String::new();
    let mut depth = 0usize;
    for op in w.ops() {
        match op {
            CodeOp::Line(s) => {
                out.push_str(&"    ".repeat(depth));
                out.push_str(s);
                out.push('\n');
            }
            CodeOp::Blank => out.push('\n'),
            CodeOp::Open(h) => {
                out.push_str(&"    ".repeat(depth));
                out.push_str(h);
                out.push_str(" {\n");
                depth += 1;
            }
            CodeOp::Close => {
                depth -= 1;
                out.push_str(&"    ".repeat(depth));
                out.push_str("}\n");
            }
            CodeOp::Indent => depth += 1,
            CodeOp::Dedent => depth -= 1,
        }
    }
    out
}

#[test]
fn test_generate_builder_simple() {
    // Arrange
    let schema = ArrowSchemaDef {
        name: "Test".into(),
        fields: vec![
            ArrowFieldDef::new("id", ArrowType::Int64).with_nullable(false),
            ArrowFieldDef::new("name", ArrowType::Utf8),
        ],
        metadata: BTreeMap::new(),
    };
    let companions = Vec::new();
    let mut w = CodePlan::new();

    // Act
    generate_builder(&mut w, &schema, &companions);

    // Assert
    let output = render(&w);
    assert!(output.contains("pub struct TestBuilder"));
    assert!(output.contains("id: Int64Builder"));
    assert!(output.contains("name: StringBuilder"));
    assert!(output.contains("pub fn new() -> Self"));
    assert!(output.contains("pub fn append(&mut self, id: i64, name: Option<&str>)"));
    assert!(output.contains("pub fn finish(&mut self)"));
    assert!(output.contains("self.id.append_value(id)"));
    assert!(output.contains("self.name.append_value(v)"));
}

#[test]
fn test_generate_builder_with_struct_companion() {
    // Arrange
    let struct_fields = vec![
        ArrowFieldDef::new("lat", ArrowType::Float64),
        ArrowFieldDef::new("lng", ArrowType::Float64),
    ];
    let schema = ArrowSchemaDef {
        name: "Test".into(),
        fields: vec![
            ArrowFieldDef::new("id", ArrowType::Int64).with_nullable(false),
            ArrowFieldDef::new(
                "location",
                ArrowType::Struct {
                    fields: struct_fields.clone(),
                },
            ),
        ],
        metadata: BTreeMap::new(),
    };
    let companions = vec![(
        "location".to_string(),
        CompanionInfo {
            struct_name: "TestLocation".into(),
            fields: struct_fields,
            needs_lifetime: false,
        },
    )];
    let mut w = CodePlan::new();

    // Act
    generate_builder(&mut w, &schema, &companions);

    // Assert
    let output = render(&w);
    assert!(
        output.contains("location: Option<&TestLocation>"),
        "got: {output}"
    );
    assert!(output.contains("field_builder::<Float64Builder>(0)"));
    assert!(output.contains("field_builder::<Float64Builder>(1)"));
}

#[test]
fn test_generate_builder_with_list_struct() {
    // Arrange
    let struct_fields = vec![
        ArrowFieldDef::new("name", ArrowType::Utf8),
        ArrowFieldDef::new("qty", ArrowType::Int32),
    ];
    let element = ArrowFieldDef::new(
        "item",
        ArrowType::Struct {
            fields: struct_fields.clone(),
        },
    );
    let schema = ArrowSchemaDef {
        name: "Order".into(),
        fields: vec![ArrowFieldDef::new(
            "items",
            ArrowType::List {
                element: Box::new(element),
            },
        )],
        metadata: BTreeMap::new(),
    };
    let companions = vec![(
        "items".to_string(),
        CompanionInfo {
            struct_name: "OrderItems".into(),
            fields: struct_fields,
            needs_lifetime: true,
        },
    )];
    let mut w = CodePlan::new();

    // Act
    generate_builder(&mut w, &schema, &companions);

    // Assert
    let output = render(&w);
    assert!(
        output.contains("items: Option<&[OrderItems<'_>]>"),
        "got: {output}"
    );
    assert!(output.contains("for row in rows"));
    assert!(output.contains("values().field_builder::<StringBuilder>(0)"));
    assert!(output.contains("values().field_builder::<Int32Builder>(1)"));
}

#[test]
fn test_builder_escapes_reserved_word_field() {
    // Arrange — field named "type" (Rust keyword)
    let schema = ArrowSchemaDef {
        name: "Test".into(),
        fields: vec![ArrowFieldDef::new("type", ArrowType::Int32).with_nullable(false)],
        metadata: BTreeMap::new(),
    };
    let companions = Vec::new();
    let mut w = CodePlan::new();

    // Act
    generate_builder(&mut w, &schema, &companions);

    // Assert — "type" should become "type_" in all Rust identifiers
    let output = render(&w);
    assert!(
        output.contains("type_: Int32Builder"),
        "missing escaped struct field in:\n{output}"
    );
    assert!(
        output.contains("type_: i32"),
        "missing escaped append param in:\n{output}"
    );
    assert!(
        output.contains("self.type_.append_value(type_)"),
        "missing escaped append call in:\n{output}"
    );
}

#[test]
fn test_generate_reader_simple() {
    // Arrange
    let schema = ArrowSchemaDef {
        name: "Test".into(),
        fields: vec![
            ArrowFieldDef::new("id", ArrowType::Int64).with_nullable(false),
            ArrowFieldDef::new("name", ArrowType::Utf8),
        ],
        metadata: BTreeMap::new(),
    };
    let mut w = CodePlan::new();

    // Act
    generate_reader(&mut w, &schema);

    // Assert
    let output = render(&w);
    assert!(output.contains("pub struct TestReader<'a>"));
    assert!(output.contains("pub fn try_new(batch: &'a RecordBatch)"));
    assert!(output.contains("pub fn id(&self) -> &Int64Array"));
    assert!(output.contains("self.batch.column(0).as_primitive()"));
    assert!(output.contains("pub fn name(&self) -> &StringArray"));
    assert!(output.contains("self.batch.column(1).as_string()"));
    assert!(output.contains("pub fn num_rows(&self) -> usize"));
}

#[test]
fn test_reader_escapes_reserved_word_field() {
    // Arrange — field named "type" (Rust keyword)
    let schema = ArrowSchemaDef {
        name: "Test".into(),
        fields: vec![ArrowFieldDef::new("type", ArrowType::Int32).with_nullable(false)],
        metadata: BTreeMap::new(),
    };
    let mut w = CodePlan::new();

    // Act
    generate_reader(&mut w, &schema);

    // Assert — "type" should become "type_" in accessor method name
    let output = render(&w);
    assert!(
        output.contains("pub fn type_(&self) -> &Int32Array"),
        "missing escaped accessor in:\n{output}"
    );
}

#[test]
fn test_generate_schema_simple() {
    // Arrange
    let schema = ArrowSchemaDef {
        name: "Test".into(),
        fields: vec![
            ArrowFieldDef::new("id", ArrowType::Int64).with_nullable(false),
            ArrowFieldDef::new("name", ArrowType::Utf8),
        ],
        metadata: BTreeMap::new(),
    };
    let mut w = CodePlan::new();

    // Act
    generate_schema(&mut w, &schema);

    // Assert
    let output = render(&w);
    assert!(output.contains("pub struct TestSchema;"));
    assert!(output.contains("pub fn schema() -> Schema"));
    assert!(output.contains("pub fn schema_ref() -> Arc<Schema>"));
    assert!(output.contains("Field::new(\"id\", DataType::Int64, false)"));
    assert!(output.contains("Field::new(\"name\", DataType::Utf8, true)"));
}

// ---------------------------------------------------------------------------
// Companions, identifiers and whole files
// ---------------------------------------------------------------------------

fn user_events() -> ArrowSchemaDef {
    let point = vec![
        ArrowFieldDef::new("lat", ArrowType::Float64),
        ArrowFieldDef::new("lng", ArrowType::Float64),
    ];
    let location = vec![
        ArrowFieldDef::new("city", ArrowType::Utf8).with_nullable(false),
        ArrowFieldDef::new("point", ArrowType::Struct { fields: point }),
    ];
    let tag = vec![ArrowFieldDef::new("score", ArrowType::Int32)];
    ArrowSchemaDef {
        name: "UserEvents".into(),
        fields: vec![
            ArrowFieldDef::new("id", ArrowType::Int64).with_nullable(false),
            ArrowFieldDef::new("location", ArrowType::Struct { fields: location }),
            ArrowFieldDef::new(
                "tags",
                ArrowType::List {
                    element: Box::new(ArrowFieldDef::new("item", ArrowType::Struct { fields: tag })),
                },
            ),
        ],
        metadata: BTreeMap::new(),
    }
}

#[test]
fn test_collect_companions_in_field_order_nested_after_parent() {
    let companions = collect_companions(&user_events());
    let names: Vec<(&str, &str, bool)> = companions
        .iter()
        .map(|(k, c)| (k.as_str(), c.struct_name.as_str(), c.needs_lifetime))
        .collect();
    assert_eq!(
        names,
        vec![
            ("location", "UserEventsLocation", true),
            ("point", "UserEventsLocationPoint", false),
            ("tags", "UserEventsTags", false),
        ]
    );
    assert_eq!(companions[0].1.fields.len(), 2);
}

#[test]
fn test_companion_type_ref() {
    let with = CompanionInfo {
        struct_name: "A".into(),
        fields: vec![],
        needs_lifetime: true,
    };
    let without = CompanionInfo {
        struct_name: "B".into(),
        fields: vec![],
        needs_lifetime: false,
    };
    assert_eq!(with.type_ref(), "A<'_>");
    assert_eq!(without.type_ref(), "B");
}

#[test]
fn test_generate_companions_members() {
    let mut w = CodePlan::new();
    generate_companions(&mut w, &user_events());
    let output = render(&w);
    assert!(output.contains("/// Companion struct for the `UserEventsLocation` nested type."));
    assert!(output.contains("pub struct UserEventsLocation<'a> {"));
    assert!(output.contains("pub city: &'a str,"));
    assert!(output.contains("pub point: Option</* struct */>,"));
    assert!(output.contains("pub struct UserEventsLocationPoint {"));
    assert!(output.contains("pub lat: Option<f64>,"));
    assert!(output.contains("pub score: Option<i32>,"));
}

#[test]
fn test_rust_field_ident_escapes_keywords_only() {
    assert_eq!(rust_field_ident("type"), "type_");
    assert_eq!(rust_field_ident("match"), "match_");
    assert_eq!(rust_field_ident("name"), "name");
    assert_eq!(rust_field_ident("type_"), "type_");
}

#[test]
fn test_struct_fields_are_appended_through_companions() {
    let schema = user_events();
    let companions = collect_companions(&schema);
    let mut w = CodePlan::new();
    generate_builder(&mut w, &schema, &companions);
    let output = render(&w);
    assert!(output.contains("location: Option<&UserEventsLocation<'_>>"), "got: {output}");
    assert!(output.contains("tags: Option<&[UserEventsTags]>"), "got: {output}");
    assert!(output.contains("self.location.field_builder::<StringBuilder>(0).unwrap().append_value(s.city);"));
    assert!(output.contains("self.location.field_builder::<StructBuilder>(1).unwrap().append_null();"));
}

#[test]
fn test_generate_rust_names_files_in_snake_case() {
    let file = ArrowSchemaFile {
        schemas: vec![user_events()],
    };
    assert!(rust_file_supported(&file.schemas[0]));
    let files = generate_rust(&file);
    assert_eq!(files.len(), 1);
    assert_eq!(files[0].0, "user_events.rs");
    let output = render(&files[0].1);
    assert!(output.contains("pub struct UserEventsSchema;"));
    assert!(output.contains("pub struct UserEventsBuilder {"));
    assert!(output.contains("pub struct UserEventsReader<'a> {"));
    assert_eq!(render(&generate_rust_file(&file.schemas[0])), output);
}

#[test]
fn test_unsupported_types_are_reported() {
    let schema = ArrowSchemaDef {
        name: "T".into(),
        fields: vec![ArrowFieldDef::new(
            "l",
            ArrowType::LargeList {
                element: Box::new(ArrowFieldDef::new("item", ArrowType::Int32)),
            },
        )],
        metadata: BTreeMap::new(),
    };
    assert!(!rust_file_supported(&schema));
}

#[test]
fn test_generated_file_is_well_nested() {
    let plan = generate_rust_file(&user_events());
    let (mut blocks, mut indent) = (0i64, 0i64);
    for op in plan.ops() {
        match op {
            CodeOp::Open(_) => blocks += 1,
            CodeOp::Close => blocks -= 1,
            CodeOp::Indent => indent += 1,
            CodeOp::Dedent => indent -= 1,
            _ => {}
        }
        assert!(blocks >= 0 && indent >= 0);
    }
    assert_eq!((blocks, indent), (0, 0));
}
