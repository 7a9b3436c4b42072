//! Mapping from Arrow types to the Rust code that builds, reads and
//! describes them.
use vstd::prelude::*;

use crate::arrow_type::{ArrowType, SpecType, TimeUnit};
use crate::schema_def::{ArrowFieldDef, SpecField, fields_view};
use crate::text::{join, join_strings, str2, str3, str4, str5, views};

verus! {

/// Mapping from ArrowType to Rust code generation strings.
pub struct RustTypeInfo {
    /// The Rust type for append parameters (e.g. `i32`, `&str`, `&[u8]`).
    pub append_type: String,
    /// The Arrow builder type (e.g. `Int32Builder`, `StringBuilder`).
    pub builder_type: String,
    /// The Arrow array type (e.g. `Int32Array`, `StringArray`).
    pub array_type: String,
    /// The `AsArray` accessor method (e.g. `as_primitive`, `as_string`).
    pub accessor_method: String,
    /// Constructor expression for the builder (e.g. `Int32Builder::new()`).
    pub builder_new: String,
    /// Constructor with capacity (e.g. `Int32Builder::with_capacity(capacity)`).
    pub builder_with_capacity: String,
    /// The Arrow DataType expression (e.g. `DataType::Int32`).
    pub datatype_expr: String,
}

/// The model of a `RustTypeInfo`.
pub struct SpecTypeInfo {
    pub append_type: Seq<char>,
    pub builder_type: Seq<char>,
    pub array_type: Seq<char>,
    pub accessor_method: Seq<char>,
    pub builder_new: Seq<char>,
    pub builder_with_capacity: Seq<char>,
    pub datatype_expr: Seq<char>,
}

impl View for RustTypeInfo {
    type V = SpecTypeInfo;

    open spec fn view(&self) -> SpecTypeInfo {
        SpecTypeInfo {
            append_type: self.append_type@,
            builder_type: self.builder_type@,
            array_type: self.array_type@,
            accessor_method: self.accessor_method@,
            builder_new: self.builder_new@,
            builder_with_capacity: self.builder_with_capacity@,
            datatype_expr: self.datatype_expr@,
        }
    }
}

// ---------------------------------------------------------------------------
// Which types the generator handles
// ---------------------------------------------------------------------------

/// Types that `rust_type_info` maps (the others are left for later and
/// stop the generator).
pub open spec fn info_ok(t: SpecType) -> bool
    decreases t, 0int,
{
    match t {
        SpecType::Interval { .. } | SpecType::LargeList { .. } | SpecType::FixedSizeList { .. }
        | SpecType::MapType { .. } | SpecType::Union { .. } | SpecType::Dictionary { .. } => false,
        SpecType::List { element } => info_ok(element.arrow_type),
        SpecType::Struct { fields } => members_ok(fields, 0),
        _ => true,
    }
}

/// Fields whose `Field` expression `field_expr` can write.
pub open spec fn expr_ok(f: SpecField) -> bool
    decreases f, 0int,
{
    match f.arrow_type {
        SpecType::List { element } => expr_ok(*element),
        SpecType::LargeList { element } => expr_ok(*element),
        SpecType::FixedSizeList { element, .. } => expr_ok(*element),
        SpecType::Struct { fields } => exprs_ok(fields, 0),
        SpecType::MapType { key, value, .. } => expr_ok(*key) && expr_ok(*value),
        _ => info_ok(f.arrow_type),
    }
}

/// Struct members from `k` on: each maps and has a writable expression.
pub open spec fn members_ok(fs: Seq<SpecField>, k: int) -> bool
    decreases fs, fs.len() - k,
{
    if k < 0 || k >= fs.len() {
        true
    } else {
        info_ok(fs[k].arrow_type) && expr_ok(fs[k]) && members_ok(fs, k + 1)
    }
}

pub open spec fn exprs_ok(fs: Seq<SpecField>, k: int) -> bool
    decreases fs, fs.len() - k,
{
    if k < 0 || k >= fs.len() {
        true
    } else {
        expr_ok(fs[k]) && exprs_ok(fs, k + 1)
    }
}

// ---------------------------------------------------------------------------
// What the mapping is
// ---------------------------------------------------------------------------

pub open spec fn bool_text(b: bool) -> Seq<char> {
    if b {
        "true"@
    } else {
        "false"@
    }
}

pub open spec fn unit_suffix(u: TimeUnit) -> Seq<char> {
    match u {
        TimeUnit::Second => "Second"@,
        TimeUnit::Millisecond => "Millisecond"@,
        TimeUnit::Microsecond => "Microsecond"@,
        TimeUnit::Nanosecond => "Nanosecond"@,
    }
}

/// The mapping of a primitive type: a Rust scalar and the Arrow builder,
/// array and data type of the given prefix.
pub open spec fn scalar_spec(rust_type: Seq<char>, prefix: Seq<char>) -> SpecTypeInfo {
    SpecTypeInfo {
        append_type: rust_type,
        builder_type: prefix + "Builder"@,
        array_type: prefix + "Array"@,
        accessor_method: "as_primitive"@,
        builder_new: prefix + "Builder::new()"@,
        builder_with_capacity: prefix + "Builder::with_capacity(capacity)"@,
        datatype_expr: "DataType::"@ + prefix,
    }
}

/// A mapping whose seven strings are given in full.
pub open spec fn fixed_spec(
    append_type: Seq<char>,
    builder_type: Seq<char>,
    array_type: Seq<char>,
    accessor_method: Seq<char>,
    builder_new: Seq<char>,
    builder_with_capacity: Seq<char>,
    datatype_expr: Seq<char>,
) -> SpecTypeInfo {
    SpecTypeInfo {
        append_type,
        builder_type,
        array_type,
        accessor_method,
        builder_new,
        builder_with_capacity,
        datatype_expr,
    }
}

/// A temporal type of the given kind (`Time32`, `Duration`, ...): builder,
/// array and data type named after the unit.
pub open spec fn unit_spec(append: Seq<char>, kind: Seq<char>, u: TimeUnit) -> SpecTypeInfo {
    let suffix = unit_suffix(u);
    SpecTypeInfo {
        append_type: append,
        builder_type: kind + suffix + "Builder"@,
        array_type: kind + suffix + "Array"@,
        accessor_method: "as_primitive"@,
        builder_new: kind + suffix + "Builder::new()"@,
        builder_with_capacity: kind + suffix + "Builder::with_capacity(capacity)"@,
        datatype_expr: "DataType::"@ + kind + "(TimeUnit::"@ + suffix + ")"@,
    }
}

pub open spec fn decimal_spec(kind: Seq<char>, append: Seq<char>, precision: Seq<char>, scale: Seq<char>) -> SpecTypeInfo {
    let ps = precision + ", "@ + scale;
    SpecTypeInfo {
        append_type: append,
        builder_type: kind + "Builder"@,
        array_type: kind + "Array"@,
        accessor_method: "as_primitive"@,
        builder_new: kind + "Builder::new().with_precision_and_scale("@ + ps + ").unwrap()"@,
        builder_with_capacity: kind + "Builder::with_capacity(capacity).with_precision_and_scale("@
            + ps + ").unwrap()"@,
        datatype_expr: "DataType::"@ + kind + "("@ + ps + ")"@,
    }
}

/// `rust_type_info`: the Rust code for building, reading and describing a
/// type.
pub open spec fn type_info(t: SpecType) -> SpecTypeInfo
    decreases t, 1int,
{
    match t {
        SpecType::Null => fixed_spec(
            "()"@,
            "NullBuilder"@,
            "NullArray"@,
            "as_any"@,
            "NullBuilder::new()"@,
            "NullBuilder::new()"@,
            "DataType::Null"@,
        ),
        SpecType::Boolean => fixed_spec(
            "bool"@,
            "BooleanBuilder"@,
            "BooleanArray"@,
            "as_boolean"@,
            "BooleanBuilder::new()"@,
            "BooleanBuilder::with_capacity(capacity)"@,
            "DataType::Boolean"@,
        ),
        SpecType::Int8 => scalar_spec("i8"@, "Int8"@),
        SpecType::Int16 => scalar_spec("i16"@, "Int16"@),
        SpecType::Int32 => scalar_spec("i32"@, "Int32"@),
        SpecType::Int64 => scalar_spec("i64"@, "Int64"@),
        SpecType::UInt8 => scalar_spec("u8"@, "UInt8"@),
        SpecType::UInt16 => scalar_spec("u16"@, "UInt16"@),
        SpecType::UInt32 => scalar_spec("u32"@, "UInt32"@),
        SpecType::UInt64 => scalar_spec("u64"@, "UInt64"@),
        SpecType::Float16 => fixed_spec(
            "half::f16"@,
            "Float16Builder"@,
            "Float16Array"@,
            "as_primitive"@,
            "Float16Builder::new()"@,
            "Float16Builder::with_capacity(capacity)"@,
            "DataType::Float16"@,
        ),
        SpecType::Float32 => scalar_spec("f32"@, "Float32"@),
        SpecType::Float64 => scalar_spec("f64"@, "Float64"@),
        SpecType::Utf8 => fixed_spec(
            "&str"@,
            "StringBuilder"@,
            "StringArray"@,
            "as_string"@,
            "StringBuilder::new()"@,
            "StringBuilder::with_capacity(capacity, capacity * 32)"@,
            "DataType::Utf8"@,
        ),
        SpecType::LargeUtf8 => fixed_spec(
            "&str"@,
            "LargeStringBuilder"@,
            "LargeStringArray"@,
            "as_string"@,
            "LargeStringBuilder::new()"@,
            "LargeStringBuilder::with_capacity(capacity, capacity * 32)"@,
            "DataType::LargeUtf8"@,
        ),
        SpecType::Binary => fixed_spec(
            "&[u8]"@,
            "BinaryBuilder"@,
            "BinaryArray"@,
            "as_binary"@,
            "BinaryBuilder::new()"@,
            "BinaryBuilder::with_capacity(capacity, capacity * 64)"@,
            "DataType::Binary"@,
        ),
        SpecType::LargeBinary => fixed_spec(
            "&[u8]"@,
            "LargeBinaryBuilder"@,
            "LargeBinaryArray"@,
            "as_binary"@,
            "LargeBinaryBuilder::new()"@,
            "LargeBinaryBuilder::with_capacity(capacity, capacity * 64)"@,
            "DataType::LargeBinary"@,
        ),
        SpecType::FixedSizeBinary { byte_width } => {
            let w = crate::text::decimal(byte_width as int);
            fixed_spec(
                "&[u8]"@,
                "FixedSizeBinaryBuilder"@,
                "FixedSizeBinaryArray"@,
                "as_fixed_size_binary"@,
                "FixedSizeBinaryBuilder::new("@ + w + ")"@,
                "FixedSizeBinaryBuilder::with_capacity(capacity, "@ + w + ")"@,
                "DataType::FixedSizeBinary("@ + w + ")"@,
            )
        },
        SpecType::Date32 => fixed_spec(
            "i32"@,
            "Date32Builder"@,
            "Date32Array"@,
            "as_primitive"@,
            "Date32Builder::new()"@,
            "Date32Builder::with_capacity(capacity)"@,
            "DataType::Date32"@,
        ),
        SpecType::Date64 => fixed_spec(
            "i64"@,
            "Date64Builder"@,
            "Date64Array"@,
            "as_primitive"@,
            "Date64Builder::new()"@,
            "Date64Builder::with_capacity(capacity)"@,
            "DataType::Date64"@,
        ),
        SpecType::Time32 { unit } => unit_spec("i32"@, "Time32"@, unit),
        SpecType::Time64 { unit } => unit_spec("i64"@, "Time64"@, unit),
        SpecType::Timestamp { unit, timezone } => {
            let suffix = unit_suffix(unit);
            let tz_expr = match timezone {
                Some(tz) => "Some(Arc::from(\""@ + tz + "\"))"@,
                None => "None"@,
            };
            let tz_chain = match timezone {
                Some(tz) => ".with_timezone(\""@ + tz + "\")"@,
                None => Seq::empty(),
            };
            SpecTypeInfo {
                append_type: "i64"@,
                builder_type: "Timestamp"@ + suffix + "Builder"@,
                array_type: "Timestamp"@ + suffix + "Array"@,
                accessor_method: "as_primitive"@,
                builder_new: "Timestamp"@ + suffix + "Builder::new()"@ + tz_chain,
                builder_with_capacity: "Timestamp"@ + suffix + "Builder::with_capacity(capacity)"@
                    + tz_chain,
                datatype_expr: "DataType::Timestamp(TimeUnit::"@ + suffix + ", "@ + tz_expr + ")"@,
            }
        },
        SpecType::Duration { unit } => unit_spec("i64"@, "Duration"@, unit),
        SpecType::Decimal128 { precision, scale } => decimal_spec(
            "Decimal128"@,
            "i128"@,
            crate::text::decimal(precision as int),
            crate::text::decimal(scale as int),
        ),
        SpecType::Decimal256 { precision, scale } => decimal_spec(
            "Decimal256"@,
            "i256"@,
            crate::text::decimal(precision as int),
            crate::text::decimal(scale as int),
        ),
        SpecType::List { element } => {
            let inner = type_info(element.arrow_type);
            SpecTypeInfo {
                append_type: "&["@ + inner.append_type + "]"@,
                builder_type: "ListBuilder<"@ + inner.builder_type + ">"@,
                array_type: "ListArray"@,
                accessor_method: "as_list"@,
                builder_new: "ListBuilder::new("@ + inner.builder_new + ")"@,
                builder_with_capacity: "ListBuilder::with_capacity("@ + inner.builder_new
                    + ", capacity)"@,
                datatype_expr: "DataType::List(Arc::new(Field::new(\"item\", "@
                    + inner.datatype_expr + ", "@ + bool_text(element.nullable) + ")))"@,
            }
        },
        SpecType::Struct { fields } => {
            let builders = join(child_builders(fields, 0), ", "@);
            let exprs = join(field_exprs(fields, 0), ", "@);
            let ctor = "StructBuilder::new(vec!["@ + exprs + "], vec!["@ + builders + "])"@;
            SpecTypeInfo {
                append_type: "/* struct */"@,
                builder_type: "StructBuilder"@,
                array_type: "StructArray"@,
                accessor_method: "as_struct"@,
                builder_new: ctor,
                builder_with_capacity: ctor,
                datatype_expr: "DataType::Struct(Fields::from(vec!["@ + exprs + "]))"@,
            }
        },
        _ => arbitrary(),
    }
}

/// `Box::new(<builder>) as Box<dyn ArrayBuilder>` for each member from `k` on.
pub open spec fn child_builders(fs: Seq<SpecField>, k: int) -> Seq<Seq<char>>
    decreases fs, fs.len() - k,
{
    if k < 0 || k >= fs.len() {
        Seq::empty()
    } else {
        seq![
            "Box::new("@ + type_info(fs[k].arrow_type).builder_new + ") as Box<dyn ArrayBuilder>"@,
        ] + child_builders(fs, k + 1)
    }
}

/// The `Field` expression of each member from `k` on.
pub open spec fn field_exprs(fs: Seq<SpecField>, k: int) -> Seq<Seq<char>>
    decreases fs, fs.len() - k,
{
    if k < 0 || k >= fs.len() {
        Seq::empty()
    } else {
        seq![field_expr_spec(fs[k])] + field_exprs(fs, k + 1)
    }
}

/// `Field::new("<name>", <data type>, <nullable>)` for a field.
pub open spec fn field_expr_spec(f: SpecField) -> Seq<char>
    decreases f, 1int,
{
    let nullable = bool_text(f.nullable);
    let head = "Field::new(\""@ + f.name + "\", "@;
    match f.arrow_type {
        SpecType::List { element } => head + "DataType::List(Arc::new("@ + field_expr_spec(*element)
            + ")), "@ + nullable + ")"@,
        SpecType::LargeList { element } => head + "DataType::LargeList(Arc::new("@ + field_expr_spec(
            *element,
        ) + ")), "@ + nullable + ")"@,
        SpecType::FixedSizeList { element, size } => head + "DataType::FixedSizeList(Arc::new("@
            + field_expr_spec(*element) + "), "@ + crate::text::decimal(size as int) + "), "@
            + nullable + ")"@,
        SpecType::Struct { fields } => head + "DataType::Struct(Fields::from(vec!["@ + join(
            field_exprs(fields, 0),
            ", "@,
        ) + "])), "@ + nullable + ")"@,
        SpecType::MapType { key, value, keys_sorted } => {
            let entries = "Field::new(\"entries\", DataType::Struct(Fields::from(vec!["@
                + field_expr_spec(*key) + ", "@ + field_expr_spec(*value) + "])), false)"@;
            head + "DataType::Map(Arc::new("@ + entries + "), "@ + bool_text(keys_sorted) + "), "@
                + nullable + ")"@
        },
        _ => head + type_info(f.arrow_type).datatype_expr + ", "@ + nullable + ")"@,
    }
}

// ---------------------------------------------------------------------------
// The mapping
// ---------------------------------------------------------------------------

fn bool_str(b: bool) -> (r: &'static str)
    ensures
        r@ == bool_text(b),
{
    if b {
        "true"
    } else {
        "false"
    }
}

fn time_unit_suffix(unit: &TimeUnit) -> (r: &'static str)
    ensures
        r@ == unit_suffix(*unit),
{
    match unit {
        TimeUnit::Second => "Second",
        TimeUnit::Millisecond => "Millisecond",
        TimeUnit::Microsecond => "Microsecond",
        TimeUnit::Nanosecond => "Nanosecond",
    }
}

fn fixed_info(
    append_type: &str,
    builder_type: &str,
    array_type: &str,
    accessor_method: &str,
    builder_new: &str,
    builder_with_capacity: &str,
    datatype_expr: &str,
) -> (r: RustTypeInfo)
    ensures
        r@ == fixed_spec(
            append_type@,
            builder_type@,
            array_type@,
            accessor_method@,
            builder_new@,
            builder_with_capacity@,
            datatype_expr@,
        ),
{
    RustTypeInfo {
        append_type: append_type.to_owned(),
        builder_type: builder_type.to_owned(),
        array_type: array_type.to_owned(),
        accessor_method: accessor_method.to_owned(),
        builder_new: builder_new.to_owned(),
        builder_with_capacity: builder_with_capacity.to_owned(),
        datatype_expr: datatype_expr.to_owned(),
    }
}

fn scalar_info(rust_type: &str, arrow_prefix: &str) -> (r: RustTypeInfo)
    ensures
        r@ == scalar_spec(rust_type@, arrow_prefix@),
{
    RustTypeInfo {
        append_type: rust_type.to_owned(),
        builder_type: str2(arrow_prefix, "Builder"),
        array_type: str2(arrow_prefix, "Array"),
        accessor_method: "as_primitive".to_owned(),
        builder_new: str2(arrow_prefix, "Builder::new()"),
        builder_with_capacity: str2(arrow_prefix, "Builder::with_capacity(capacity)"),
        datatype_expr: str2("DataType::", arrow_prefix),
    }
}

fn unit_info(append: &str, kind: &str, unit: &TimeUnit) -> (r: RustTypeInfo)
    ensures
        r@ == unit_spec(append@, kind@, *unit),
{
    let suffix = time_unit_suffix(unit);
    RustTypeInfo {
        append_type: append.to_owned(),
        builder_type: str3(kind, suffix, "Builder"),
        array_type: str3(kind, suffix, "Array"),
        accessor_method: "as_primitive".to_owned(),
        builder_new: str3(kind, suffix, "Builder::new()"),
        builder_with_capacity: str3(kind, suffix, "Builder::with_capacity(capacity)"),
        datatype_expr: str5("DataType::", kind, "(TimeUnit::", suffix, ")"),
    }
}

fn decimal_info(kind: &str, append: &str, precision: u8, scale: i8) -> (r: RustTypeInfo)
    ensures
        r@ == decimal_spec(
            kind@,
            append@,
            crate::text::decimal(precision as int),
            crate::text::decimal(scale as int),
        ),
{
    let p = crate::text::int_to_string(precision as i64);
    let sc = crate::text::int_to_string(scale as i64);
    let ps = str3(p.as_str(), ", ", sc.as_str());
    let mut bn = str3(kind, "Builder::new().with_precision_and_scale(", ps.as_str());
    bn.append(").unwrap()");
    let mut bc = str3(kind, "Builder::with_capacity(capacity).with_precision_and_scale(", ps.as_str());
    bc.append(").unwrap()");
    RustTypeInfo {
        append_type: append.to_owned(),
        builder_type: str2(kind, "Builder"),
        array_type: str2(kind, "Array"),
        accessor_method: "as_primitive".to_owned(),
        builder_new: bn,
        builder_with_capacity: bc,
        datatype_expr: str5("DataType::", kind, "(", ps.as_str(), ")"),
    }
}

/// Get the Rust type mapping for an ArrowType.
pub fn rust_type_info(ty: &ArrowType) -> (r: RustTypeInfo)
    requires
        info_ok(ty@),
    ensures
        r@ == type_info(ty@),
    decreases ty, 1nat,
{
    match ty {
        ArrowType::Null => fixed_info(
            "()",
            "NullBuilder",
            "NullArray",
            "as_any",
            "NullBuilder::new()",
            "NullBuilder::new()",
            "DataType::Null",
        ),
        ArrowType::Boolean => fixed_info(
            "bool",
            "BooleanBuilder",
            "BooleanArray",
            "as_boolean",
            "BooleanBuilder::new()",
            "BooleanBuilder::with_capacity(capacity)",
            "DataType::Boolean",
        ),
        ArrowType::Int8 => scalar_info("i8", "Int8"),
        ArrowType::Int16 => scalar_info("i16", "Int16"),
        ArrowType::Int32 => scalar_info("i32", "Int32"),
        ArrowType::Int64 => scalar_info("i64", "Int64"),
        ArrowType::UInt8 => scalar_info("u8", "UInt8"),
        ArrowType::UInt16 => scalar_info("u16", "UInt16"),
        ArrowType::UInt32 => scalar_info("u32", "UInt32"),
        ArrowType::UInt64 => scalar_info("u64", "UInt64"),
        ArrowType::Float16 => fixed_info(
            "half::f16",
            "Float16Builder",
            "Float16Array",
            "as_primitive",
            "Float16Builder::new()",
            "Float16Builder::with_capacity(capacity)",
            "DataType::Float16",
        ),
        ArrowType::Float32 => scalar_info("f32", "Float32"),
        ArrowType::Float64 => scalar_info("f64", "Float64"),
        ArrowType::Utf8 => fixed_info(
            "&str",
            "StringBuilder",
            "StringArray",
            "as_string",
            "StringBuilder::new()",
            "StringBuilder::with_capacity(capacity, capacity * 32)",
            "DataType::Utf8",
        ),
        ArrowType::LargeUtf8 => fixed_info(
            "&str",
            "LargeStringBuilder",
            "LargeStringArray",
            "as_string",
            "LargeStringBuilder::new()",
            "LargeStringBuilder::with_capacity(capacity, capacity * 32)",
            "DataType::LargeUtf8",
        ),
        ArrowType::Binary => fixed_info(
            "&[u8]",
            "BinaryBuilder",
            "BinaryArray",
            "as_binary",
            "BinaryBuilder::new()",
            "BinaryBuilder::with_capacity(capacity, capacity * 64)",
            "DataType::Binary",
        ),
        ArrowType::LargeBinary => fixed_info(
            "&[u8]",
            "LargeBinaryBuilder",
            "LargeBinaryArray",
            "as_binary",
            "LargeBinaryBuilder::new()",
            "LargeBinaryBuilder::with_capacity(capacity, capacity * 64)",
            "DataType::LargeBinary",
        ),
        ArrowType::FixedSizeBinary { byte_width } => {
            let w = crate::text::int_to_string(*byte_width as i64);
            let bn = str3("FixedSizeBinaryBuilder::new(", w.as_str(), ")");
            let bc = str3("FixedSizeBinaryBuilder::with_capacity(capacity, ", w.as_str(), ")");
            let de = str3("DataType::FixedSizeBinary(", w.as_str(), ")");
            fixed_info(
                "&[u8]",
                "FixedSizeBinaryBuilder",
                "FixedSizeBinaryArray",
                "as_fixed_size_binary",
                bn.as_str(),
                bc.as_str(),
                de.as_str(),
            )
        },
        ArrowType::Date32 => fixed_info(
            "i32",
            "Date32Builder",
            "Date32Array",
            "as_primitive",
            "Date32Builder::new()",
            "Date32Builder::with_capacity(capacity)",
            "DataType::Date32",
        ),
        ArrowType::Date64 => fixed_info(
            "i64",
            "Date64Builder",
            "Date64Array",
            "as_primitive",
            "Date64Builder::new()",
            "Date64Builder::with_capacity(capacity)",
            "DataType::Date64",
        ),
        ArrowType::Time32 { unit } => unit_info("i32", "Time32", unit),
        ArrowType::Time64 { unit } => unit_info("i64", "Time64", unit),
        ArrowType::Timestamp { unit, timezone } => {
            let suffix = time_unit_suffix(unit);
            let tz_expr = match timezone {
                Some(tz) => str3("Some(Arc::from(\"", tz.as_str(), "\"))"),
                None => "None".to_owned(),
            };
            let tz_chain = match timezone {
                Some(tz) => str3(".with_timezone(\"", tz.as_str(), "\")"),
                None => String::new(),
            };
            let mut de = str4("DataType::Timestamp(TimeUnit::", suffix, ", ", tz_expr.as_str());
            de.append(")");
            RustTypeInfo {
                append_type: "i64".to_owned(),
                builder_type: str3("Timestamp", suffix, "Builder"),
                array_type: str3("Timestamp", suffix, "Array"),
                accessor_method: "as_primitive".to_owned(),
                builder_new: str4("Timestamp", suffix, "Builder::new()", tz_chain.as_str()),
                builder_with_capacity: str4(
                    "Timestamp",
                    suffix,
                    "Builder::with_capacity(capacity)",
                    tz_chain.as_str(),
                ),
                datatype_expr: de,
            }
        },
        ArrowType::Duration { unit } => unit_info("i64", "Duration", unit),
        ArrowType::Decimal128 { precision, scale } => decimal_info(
            "Decimal128",
            "i128",
            *precision,
            *scale,
        ),
        ArrowType::Decimal256 { precision, scale } => decimal_info(
            "Decimal256",
            "i256",
            *precision,
            *scale,
        ),
        ArrowType::List { element } => list_info(element),
        ArrowType::Struct { fields } => struct_info(fields),
        // excluded by `info_ok`
        _ => vstd::pervasive::unreached(),
    }
}

/// Generate the DataType expression for a type (used in schema generation).
pub fn datatype_expr(ty: &ArrowType) -> (r: String)
    requires
        info_ok(ty@),
    ensures
        r@ == type_info(ty@).datatype_expr,
    decreases ty, 2nat,
{
    rust_type_info(ty).datatype_expr
}

fn list_info(element: &ArrowFieldDef) -> (r: RustTypeInfo)
    requires
        info_ok(element@.arrow_type),
    ensures
        r@ == type_info(SpecType::List { element: Box::new(element@) }),
    decreases element, 2nat,
{
    let inner = rust_type_info(&element.arrow_type);
    let mut de = str4(
        "DataType::List(Arc::new(Field::new(\"item\", ",
        inner.datatype_expr.as_str(),
        ", ",
        bool_str(element.nullable),
    );
    de.append(")))");
    RustTypeInfo {
        append_type: str3("&[", inner.append_type.as_str(), "]"),
        builder_type: str3("ListBuilder<", inner.builder_type.as_str(), ">"),
        array_type: "ListArray".to_owned(),
        accessor_method: "as_list".to_owned(),
        builder_new: str3("ListBuilder::new(", inner.builder_new.as_str(), ")"),
        builder_with_capacity: str3(
            "ListBuilder::with_capacity(",
            inner.builder_new.as_str(),
            ", capacity)",
        ),
        datatype_expr: de,
    }
}

fn struct_info(fields: &Vec<ArrowFieldDef>) -> (r: RustTypeInfo)
    requires
        members_ok(fields_view(fields@), 0),
    ensures
        r@ == type_info(SpecType::Struct { fields: fields_view(fields@) }),
    decreases fields, 2nat,
{
    let ghost fs = fields_view(fields@);
    let mut child_builders_v: Vec<String> = Vec::new();
    let mut field_exprs_v: Vec<String> = Vec::new();
    let mut i: usize = 0;
    while i < fields.len()
        invariant
            fs == fields_view(fields@),
            i <= fields@.len(),
            members_ok(fs, i as int),
            views(child_builders_v@) + child_builders(fs, i as int) == child_builders(fs, 0),
            views(field_exprs_v@) + field_exprs(fs, i as int) == field_exprs(fs, 0),
        decreases fields@.len() - i,
    {
        proof {
            assert(fs[i as int] == fields@[i as int]@);
        }
        let info = rust_type_info(&fields[i].arrow_type);
        let b = str3("Box::new(", info.builder_new.as_str(), ") as Box<dyn ArrayBuilder>");
        let e = field_expr(&fields[i]);
        let ghost cb = views(child_builders_v@);
        let ghost fe = views(field_exprs_v@);
        child_builders_v.push(b);
        field_exprs_v.push(e);
        proof {
            assert(views(child_builders_v@) =~= cb.push(b@));
            assert(views(field_exprs_v@) =~= fe.push(e@));
            assert(cb + child_builders(fs, i as int) =~= cb.push(b@) + child_builders(fs, i + 1));
            assert(fe + field_exprs(fs, i as int) =~= fe.push(e@) + field_exprs(fs, i + 1));
        }
        i = i + 1;
    }
    proof {
        assert(views(child_builders_v@) + Seq::<Seq<char>>::empty() =~= views(child_builders_v@));
        assert(views(field_exprs_v@) + Seq::<Seq<char>>::empty() =~= views(field_exprs_v@));
    }
    let builders = join_strings(&child_builders_v, ", ");
    let exprs = join_strings(&field_exprs_v, ", ");
    let mut ctor = str4("StructBuilder::new(vec![", exprs.as_str(), "], vec![", builders.as_str());
    ctor.append("])");
    let ctor2 = str4("StructBuilder::new(vec![", exprs.as_str(), "], vec![", builders.as_str());
    let mut ctor2 = ctor2;
    ctor2.append("])");
    RustTypeInfo {
        append_type: "/* struct */".to_owned(),
        builder_type: "StructBuilder".to_owned(),
        array_type: "StructArray".to_owned(),
        accessor_method: "as_struct".to_owned(),
        builder_new: ctor,
        builder_with_capacity: ctor2,
        datatype_expr: str3("DataType::Struct(Fields::from(vec![", exprs.as_str(), "]))"),
    }
}

/// Generate the `Field` expression of a field for schema generation.
pub fn field_expr(field: &ArrowFieldDef) -> (r: String)
    requires
        expr_ok(field@),
    ensures
        r@ == field_expr_spec(field@),
    decreases field, 1nat,
{
    let nullable = bool_str(field.nullable);
    let head = str3("Field::new(\"", field.name.as_str(), "\", ");
    match &field.arrow_type {
        ArrowType::List { element } => {
            let inner = field_expr(element);
            let mut r = str4(head.as_str(), "DataType::List(Arc::new(", inner.as_str(), ")), ");
            r.append(nullable);
            r.append(")");
            r
        },
        ArrowType::LargeList { element } => {
            let inner = field_expr(element);
            let mut r = str4(head.as_str(), "DataType::LargeList(Arc::new(", inner.as_str(), ")), ");
            r.append(nullable);
            r.append(")");
            r
        },
        ArrowType::FixedSizeList { element, size } => {
            let inner = field_expr(element);
            let n = crate::text::int_to_string(*size as i64);
            let mut r = str4(head.as_str(), "DataType::FixedSizeList(Arc::new(", inner.as_str(), "), ");
            r.append(n.as_str());
            r.append("), ");
            r.append(nullable);
            r.append(")");
            r
        },
        ArrowType::Struct { fields: sub_fields } => {
            let exprs = field_exprs_of(sub_fields);
            let joined = join_strings(&exprs, ", ");
            let mut r = str4(head.as_str(), "DataType::Struct(Fields::from(vec![", joined.as_str(), "])), ");
            r.append(nullable);
            r.append(")");
            r
        },
        ArrowType::MapType { key, value, keys_sorted } => {
            let k = field_expr(key);
            let v = field_expr(value);
            let mut entries = str4(
                "Field::new(\"entries\", DataType::Struct(Fields::from(vec![",
                k.as_str(),
                ", ",
                v.as_str(),
            );
            entries.append("])), false)");
            let mut r = str4(head.as_str(), "DataType::Map(Arc::new(", entries.as_str(), "), ");
            r.append(bool_str(*keys_sorted));
            r.append("), ");
            r.append(nullable);
            r.append(")");
            r
        },
        _ => {
            let dt = datatype_expr(&field.arrow_type);
            let mut r = str4(head.as_str(), dt.as_str(), ", ", nullable);
            r.append(")");
            r
        },
    }
}

/// The `Field` expressions of a list of fields, in order.
fn field_exprs_of(fields: &Vec<ArrowFieldDef>) -> (r: Vec<String>)
    requires
        exprs_ok(fields_view(fields@), 0),
    ensures
        views(r@) == field_exprs(fields_view(fields@), 0),
    decreases fields, 2nat,
{
    let ghost fs = fields_view(fields@);
    let mut out: Vec<String> = Vec::new();
    let mut i: usize = 0;
    while i < fields.len()
        invariant
            fs == fields_view(fields@),
            i <= fields@.len(),
            exprs_ok(fs, i as int),
            views(out@) + field_exprs(fs, i as int) == field_exprs(fs, 0),
        decreases fields@.len() - i,
    {
        proof {
            assert(fs[i as int] == fields@[i as int]@);
        }
        let e = field_expr(&fields[i]);
        let ghost before = views(out@);
        out.push(e);
        proof {
            assert(views(out@) =~= before.push(e@));
            assert(before + field_exprs(fs, i as int) =~= before.push(e@) + field_exprs(fs, i + 1));
        }
        i = i + 1;
    }
    proof {
        assert(views(out@) + Seq::<Seq<char>>::empty() =~= views(out@));
    }
    out
}

// ---------------------------------------------------------------------------
// Checking the domain of the mapping
// ---------------------------------------------------------------------------

/// Whether `rust_type_info` maps the type.
pub fn type_supported(ty: &ArrowType) -> (r: bool)
    ensures
        r == info_ok(ty@),
    decreases ty, 0nat,
{
    match ty {
        ArrowType::Interval { .. } | ArrowType::LargeList { .. } | ArrowType::FixedSizeList { .. }
        | ArrowType::MapType { .. } | ArrowType::Union { .. } | ArrowType::Dictionary { .. } => false,
        ArrowType::List { element } => {
            let r = type_supported(&element.arrow_type);
            assert(element@.arrow_type == element.arrow_type@);
            r
        },
        ArrowType::Struct { fields } => members_supported(fields),
        _ => true,
    }
}

/// Whether every struct member from the first on maps and has a `Field`
/// expression.
fn members_supported(fields: &Vec<ArrowFieldDef>) -> (r: bool)
    ensures
        r == members_ok(fields_view(fields@), 0),
    decreases fields, 1nat,
{
    let ghost fs = fields_view(fields@);
    let mut i: usize = 0;
    while i < fields.len()
        invariant
            fs == fields_view(fields@),
            i <= fields@.len(),
            members_ok(fs, 0) == members_ok(fs, i as int),
        decreases fields@.len() - i,
    {
        proof {
            assert(fs[i as int] == fields@[i as int]@);
        }
        if !type_supported(&fields[i].arrow_type) || !field_supported(&fields[i]) {
            return false;
        }
        i = i + 1;
    }
    true
}

/// Whether `field_expr` can write the field's `Field` expression.
pub fn field_supported(field: &ArrowFieldDef) -> (r: bool)
    ensures
        r == expr_ok(field@),
    decreases field, 2nat,
{
    match &field.arrow_type {
        ArrowType::List { element } => field_supported(element),
        ArrowType::LargeList { element } => field_supported(element),
        ArrowType::FixedSizeList { element, .. } => field_supported(element),
        ArrowType::Struct { fields } => exprs_supported(fields),
        ArrowType::MapType { key, value, .. } => field_supported(key) && field_supported(value),
        _ => type_supported(&field.arrow_type),
    }
}

/// Whether every field from the first on has a `Field` expression.
pub fn exprs_supported(fields: &Vec<ArrowFieldDef>) -> (r: bool)
    ensures
        r == exprs_ok(fields_view(fields@), 0),
    decreases fields, 3nat,
{
    let ghost fs = fields_view(fields@);
    let mut i: usize = 0;
    while i < fields.len()
        invariant
            fs == fields_view(fields@),
            i <= fields@.len(),
            exprs_ok(fs, 0) == exprs_ok(fs, i as int),
        decreases fields@.len() - i,
    {
        proof {
            assert(fs[i as int] == fields@[i as int]@);
        }
        if !field_supported(&fields[i]) {
            return false;
        }
        i = i + 1;
    }
    true
}

} // verus!
