//! The Arrow data type IR, its mathematical model, and how it prints.
use vstd::prelude::*;
use vstd::string::*;

use crate::schema_def::{ArrowFieldDef, SpecField, field_view, fields_view};
use crate::text::{decimal, int_to_string, str3, str5, trim, Text};

verus! {

/// Time unit for temporal Arrow types.
#[derive(Debug, Clone, Copy, PartialEq, Eq, Structural)]
pub enum TimeUnit {
    Second,
    Millisecond,
    Microsecond,
    Nanosecond,
}

/// Interval unit for Arrow Interval types.
#[derive(Debug, Clone, Copy, PartialEq, Eq, Structural)]
pub enum IntervalUnit {
    YearMonth,
    DayTime,
    MonthDayNano,
}

/// Union mode for Arrow Union types.
#[derive(Debug, Clone, Copy, PartialEq, Eq, Structural)]
pub enum UnionMode {
    Sparse,
    Dense,
}

/// Arrow data type IR. Mirrors `arrow::datatypes::DataType` structurally
/// but lives in the schema layer without depending on the arrow crate.
#[derive(Debug, PartialEq)]
pub enum ArrowType {
    Null,
    Boolean,
    Int8,
    Int16,
    Int32,
    Int64,
    UInt8,
    UInt16,
    UInt32,
    UInt64,
    Float16,
    Float32,
    Float64,
    Utf8,
    LargeUtf8,
    Binary,
    LargeBinary,
    FixedSizeBinary { byte_width: i32 },
    Date32,
    Date64,
    Time32 { unit: TimeUnit },
    Time64 { unit: TimeUnit },
    Timestamp { unit: TimeUnit, timezone: Option<String> },
    Duration { unit: TimeUnit },
    Interval { unit: IntervalUnit },
    Decimal128 { precision: u8, scale: i8 },
    Decimal256 { precision: u8, scale: i8 },
    List { element: Box<ArrowFieldDef> },
    LargeList { element: Box<ArrowFieldDef> },
    FixedSizeList { element: Box<ArrowFieldDef>, size: i32 },
    Struct { fields: Vec<ArrowFieldDef> },
    MapType { key: Box<ArrowFieldDef>, value: Box<ArrowFieldDef>, keys_sorted: bool },
    Union { fields: Vec<ArrowFieldDef>, mode: UnionMode },
    Dictionary { index_type: Box<ArrowType>, value_type: Box<ArrowType> },
}

/// The mathematical model of an `ArrowType`: strings become character
/// sequences and vectors become sequences.
pub enum SpecType {
    Null,
    Boolean,
    Int8,
    Int16,
    Int32,
    Int64,
    UInt8,
    UInt16,
    UInt32,
    UInt64,
    Float16,
    Float32,
    Float64,
    Utf8,
    LargeUtf8,
    Binary,
    LargeBinary,
    FixedSizeBinary { byte_width: i32 },
    Date32,
    Date64,
    Time32 { unit: TimeUnit },
    Time64 { unit: TimeUnit },
    Timestamp { unit: TimeUnit, timezone: Option<Seq<char>> },
    Duration { unit: TimeUnit },
    Interval { unit: IntervalUnit },
    Decimal128 { precision: u8, scale: i8 },
    Decimal256 { precision: u8, scale: i8 },
    List { element: Box<SpecField> },
    LargeList { element: Box<SpecField> },
    FixedSizeList { element: Box<SpecField>, size: i32 },
    Struct { fields: Seq<SpecField> },
    MapType { key: Box<SpecField>, value: Box<SpecField>, keys_sorted: bool },
    Union { fields: Seq<SpecField>, mode: UnionMode },
    Dictionary { index_type: Box<SpecType>, value_type: Box<SpecType> },
}

pub open spec fn opt_string_view(o: Option<String>) -> Option<Seq<char>> {
    match o {
        Some(s) => Some(s@),
        None => None,
    }
}

pub open spec fn type_view(t: ArrowType) -> SpecType
    decreases t,
{
    match t {
        ArrowType::Null => SpecType::Null,
        ArrowType::Boolean => SpecType::Boolean,
        ArrowType::Int8 => SpecType::Int8,
        ArrowType::Int16 => SpecType::Int16,
        ArrowType::Int32 => SpecType::Int32,
        ArrowType::Int64 => SpecType::Int64,
        ArrowType::UInt8 => SpecType::UInt8,
        ArrowType::UInt16 => SpecType::UInt16,
        ArrowType::UInt32 => SpecType::UInt32,
        ArrowType::UInt64 => SpecType::UInt64,
        ArrowType::Float16 => SpecType::Float16,
        ArrowType::Float32 => SpecType::Float32,
        ArrowType::Float64 => SpecType::Float64,
        ArrowType::Utf8 => SpecType::Utf8,
        ArrowType::LargeUtf8 => SpecType::LargeUtf8,
        ArrowType::Binary => SpecType::Binary,
        ArrowType::LargeBinary => SpecType::LargeBinary,
        ArrowType::FixedSizeBinary { byte_width } => SpecType::FixedSizeBinary { byte_width },
        ArrowType::Date32 => SpecType::Date32,
        ArrowType::Date64 => SpecType::Date64,
        ArrowType::Time32 { unit } => SpecType::Time32 { unit },
        ArrowType::Time64 { unit } => SpecType::Time64 { unit },
        ArrowType::Timestamp { unit, timezone } => SpecType::Timestamp {
            unit,
            timezone: opt_string_view(timezone),
        },
        ArrowType::Duration { unit } => SpecType::Duration { unit },
        ArrowType::Interval { unit } => SpecType::Interval { unit },
        ArrowType::Decimal128 { precision, scale } => SpecType::Decimal128 { precision, scale },
        ArrowType::Decimal256 { precision, scale } => SpecType::Decimal256 { precision, scale },
        ArrowType::List { element } => SpecType::List { element: Box::new(field_view(*element)) },
        ArrowType::LargeList { element } => SpecType::LargeList {
            element: Box::new(field_view(*element)),
        },
        ArrowType::FixedSizeList { element, size } => SpecType::FixedSizeList {
            element: Box::new(field_view(*element)),
            size,
        },
        ArrowType::Struct { fields } => SpecType::Struct { fields: fields_view(fields@) },
        ArrowType::MapType { key, value, keys_sorted } => SpecType::MapType {
            key: Box::new(field_view(*key)),
            value: Box::new(field_view(*value)),
            keys_sorted,
        },
        ArrowType::Union { fields, mode } => SpecType::Union { fields: fields_view(fields@), mode },
        ArrowType::Dictionary { index_type, value_type } => SpecType::Dictionary {
            index_type: Box::new(type_view(*index_type)),
            value_type: Box::new(type_view(*value_type)),
        },
    }
}

impl View for ArrowType {
    type V = SpecType;

    open spec fn view(&self) -> SpecType {
        type_view(*self)
    }
}

// ---------------------------------------------------------------------------
// Deep copies
// ---------------------------------------------------------------------------

pub fn clone_opt_string(o: &Option<String>) -> (r: Option<String>)
    ensures
        opt_string_view(r) == opt_string_view(*o),
{
    match o {
        Some(s) => Some(s.clone()),
        None => None,
    }
}

/// A copy of a type, equal to it in the model.
pub fn clone_type(t: &ArrowType) -> (r: ArrowType)
    ensures
        r@ == t@,
    decreases t,
{
    match t {
        ArrowType::Null => ArrowType::Null,
        ArrowType::Boolean => ArrowType::Boolean,
        ArrowType::Int8 => ArrowType::Int8,
        ArrowType::Int16 => ArrowType::Int16,
        ArrowType::Int32 => ArrowType::Int32,
        ArrowType::Int64 => ArrowType::Int64,
        ArrowType::UInt8 => ArrowType::UInt8,
        ArrowType::UInt16 => ArrowType::UInt16,
        ArrowType::UInt32 => ArrowType::UInt32,
        ArrowType::UInt64 => ArrowType::UInt64,
        ArrowType::Float16 => ArrowType::Float16,
        ArrowType::Float32 => ArrowType::Float32,
        ArrowType::Float64 => ArrowType::Float64,
        ArrowType::Utf8 => ArrowType::Utf8,
        ArrowType::LargeUtf8 => ArrowType::LargeUtf8,
        ArrowType::Binary => ArrowType::Binary,
        ArrowType::LargeBinary => ArrowType::LargeBinary,
        ArrowType::FixedSizeBinary { byte_width } => ArrowType::FixedSizeBinary {
            byte_width: *byte_width,
        },
        ArrowType::Date32 => ArrowType::Date32,
        ArrowType::Date64 => ArrowType::Date64,
        ArrowType::Time32 { unit } => ArrowType::Time32 { unit: *unit },
        ArrowType::Time64 { unit } => ArrowType::Time64 { unit: *unit },
        ArrowType::Timestamp { unit, timezone } => ArrowType::Timestamp {
            unit: *unit,
            timezone: clone_opt_string(timezone),
        },
        ArrowType::Duration { unit } => ArrowType::Duration { unit: *unit },
        ArrowType::Interval { unit } => ArrowType::Interval { unit: *unit },
        ArrowType::Decimal128 { precision, scale } => ArrowType::Decimal128 {
            precision: *precision,
            scale: *scale,
        },
        ArrowType::Decimal256 { precision, scale } => ArrowType::Decimal256 {
            precision: *precision,
            scale: *scale,
        },
        ArrowType::List { element } => ArrowType::List { element: Box::new(clone_field(element)) },
        ArrowType::LargeList { element } => ArrowType::LargeList {
            element: Box::new(clone_field(element)),
        },
        ArrowType::FixedSizeList { element, size } => ArrowType::FixedSizeList {
            element: Box::new(clone_field(element)),
            size: *size,
        },
        ArrowType::Struct { fields } => ArrowType::Struct { fields: clone_fields(fields) },
        ArrowType::MapType { key, value, keys_sorted } => ArrowType::MapType {
            key: Box::new(clone_field(key)),
            value: Box::new(clone_field(value)),
            keys_sorted: *keys_sorted,
        },
        ArrowType::Union { fields, mode } => ArrowType::Union {
            fields: clone_fields(fields),
            mode: *mode,
        },
        ArrowType::Dictionary { index_type, value_type } => ArrowType::Dictionary {
            index_type: Box::new(clone_type(index_type)),
            value_type: Box::new(clone_type(value_type)),
        },
    }
}

/// A copy of a field, equal to it in the model.
pub fn clone_field(f: &ArrowFieldDef) -> (r: ArrowFieldDef)
    ensures
        r@ == f@,
    decreases f,
{
    ArrowFieldDef {
        name: f.name.clone(),
        arrow_type: clone_type(&f.arrow_type),
        nullable: f.nullable,
        metadata: f.metadata.clone(),
    }
}

/// A copy of a list of fields, equal to it in the model.
pub fn clone_fields(fs: &Vec<ArrowFieldDef>) -> (r: Vec<ArrowFieldDef>)
    ensures
        fields_view(r@) == fields_view(fs@),
    decreases fs,
{
    let mut r: Vec<ArrowFieldDef> = Vec::new();
    let mut i: usize = 0;
    while i < fs.len()
        invariant
            i <= fs@.len(),
            r@.len() == i,
            forall|k: int| 0 <= k < i ==> #[trigger] r@[k]@ == fs@[k]@,
        decreases fs@.len() - i,
    {
        r.push(clone_field(&fs[i]));
        i = i + 1;
    }
    assert forall|k: int| 0 <= k < r@.len() implies #[trigger] fields_view(r@)[k] == fields_view(
        fs@,
    )[k] by {
        assert(r@[k]@ == fs@[k]@);
    }
    assert(fields_view(r@) =~= fields_view(fs@));
    r
}

impl Clone for ArrowType {
    fn clone(&self) -> (r: Self)
        ensures
            r@ == self@,
    {
        clone_type(self)
    }
}

// ---------------------------------------------------------------------------
// TimeUnit
// ---------------------------------------------------------------------------

/// How a time unit prints: `s`, `ms`, `us` or `ns`.
pub open spec fn unit_display(u: TimeUnit) -> Seq<char> {
    match u {
        TimeUnit::Second => "s"@,
        TimeUnit::Millisecond => "ms"@,
        TimeUnit::Microsecond => "us"@,
        TimeUnit::Nanosecond => "ns"@,
    }
}

/// The unit that a (whitespace-trimmed) unit name denotes.
pub open spec fn unit_of_name(t: Seq<char>) -> Option<TimeUnit> {
    if t == "s"@ || t == "second"@ || t == "Second"@ {
        Some(TimeUnit::Second)
    } else if t == "ms"@ || t == "millisecond"@ || t == "Millisecond"@ {
        Some(TimeUnit::Millisecond)
    } else if t == "us"@ || t == "microsecond"@ || t == "Microsecond"@ {
        Some(TimeUnit::Microsecond)
    } else if t == "ns"@ || t == "nanosecond"@ || t == "Nanosecond"@ {
        Some(TimeUnit::Nanosecond)
    } else {
        None
    }
}

/// `TimeUnit::parse`: the unit named by `s` once surrounding whitespace is
/// dropped.
pub open spec fn parse_unit(s: Seq<char>) -> Option<TimeUnit> {
    unit_of_name(trim(s))
}

impl TimeUnit {
    /// Parse a time unit name: `s`/`second`/`Second`, `ms`/..., `us`/...,
    /// `ns`/..., ignoring surrounding whitespace.
    pub fn parse(s: &str) -> (r: Option<TimeUnit>)
        requires
            s@.len() < 0x7fff_ffff,
        ensures
            r == parse_unit(s@),
    {
        let t = Text::new(s);
        let (lo, hi) = t.trim_range(0, t.len());
        assert(t.sub(0, t.chars@.len() as int) =~= s@);
        unit_in(&t, lo, hi)
    }

    /// The unit's short name, as `Display` prints it.
    pub fn to_string(&self) -> (r: String)
        ensures
            r@ == unit_display(*self),
    {
        match self {
            TimeUnit::Second => "s".to_owned(),
            TimeUnit::Millisecond => "ms".to_owned(),
            TimeUnit::Microsecond => "us".to_owned(),
            TimeUnit::Nanosecond => "ns".to_owned(),
        }
    }
}

/// The unit named by the characters `[lo, hi)` of `t` (already trimmed).
pub fn unit_in(t: &Text, lo: usize, hi: usize) -> (r: Option<TimeUnit>)
    requires
        t.range(lo, hi),
    ensures
        r == unit_of_name(t.sub(lo as int, hi as int)),
{
    if t.eq_lit(lo, hi, "s") || t.eq_lit(lo, hi, "second") || t.eq_lit(lo, hi, "Second") {
        Some(TimeUnit::Second)
    } else if t.eq_lit(lo, hi, "ms") || t.eq_lit(lo, hi, "millisecond") || t.eq_lit(
        lo,
        hi,
        "Millisecond",
    ) {
        Some(TimeUnit::Millisecond)
    } else if t.eq_lit(lo, hi, "us") || t.eq_lit(lo, hi, "microsecond") || t.eq_lit(
        lo,
        hi,
        "Microsecond",
    ) {
        Some(TimeUnit::Microsecond)
    } else if t.eq_lit(lo, hi, "ns") || t.eq_lit(lo, hi, "nanosecond") || t.eq_lit(
        lo,
        hi,
        "Nanosecond",
    ) {
        Some(TimeUnit::Nanosecond)
    } else {
        None
    }
}

/// Printing a unit and parsing the printed name gives the unit back.
pub proof fn law_time_unit_roundtrip(u: TimeUnit)
    ensures
        parse_unit(unit_display(u)) == Some(u),
{
    reveal_strlit("s");
    reveal_strlit("ms");
    reveal_strlit("us");
    reveal_strlit("ns");
    reveal_strlit("second");
    reveal_strlit("Second");
    reveal_strlit("millisecond");
    reveal_strlit("Millisecond");
    reveal_strlit("microsecond");
    reveal_strlit("Microsecond");
    let d = unit_display(u);
    crate::text::lemma_trim(d);
    assert(trim(d) =~= d);
}

// ---------------------------------------------------------------------------
// Display
// ---------------------------------------------------------------------------

/// How a type prints: the type-string syntax of the parser (structs and
/// unions print only their kind).
pub open spec fn type_display(t: SpecType) -> Seq<char>
    decreases t,
{
    match t {
        SpecType::Null => "null"@,
        SpecType::Boolean => "boolean"@,
        SpecType::Int8 => "int8"@,
        SpecType::Int16 => "int16"@,
        SpecType::Int32 => "int32"@,
        SpecType::Int64 => "int64"@,
        SpecType::UInt8 => "uint8"@,
        SpecType::UInt16 => "uint16"@,
        SpecType::UInt32 => "uint32"@,
        SpecType::UInt64 => "uint64"@,
        SpecType::Float16 => "float16"@,
        SpecType::Float32 => "float32"@,
        SpecType::Float64 => "float64"@,
        SpecType::Utf8 => "utf8"@,
        SpecType::LargeUtf8 => "large_utf8"@,
        SpecType::Binary => "binary"@,
        SpecType::LargeBinary => "large_binary"@,
        SpecType::FixedSizeBinary { byte_width } => "fixed_size_binary("@ + decimal(
            byte_width as int,
        ) + ")"@,
        SpecType::Date32 => "date32"@,
        SpecType::Date64 => "date64"@,
        SpecType::Time32 { unit } => "time32["@ + unit_display(unit) + "]"@,
        SpecType::Time64 { unit } => "time64["@ + unit_display(unit) + "]"@,
        SpecType::Timestamp { unit, timezone } => match timezone {
            None => "timestamp["@ + unit_display(unit) + "]"@,
            Some(tz) => "timestamp["@ + unit_display(unit) + ", "@ + tz + "]"@,
        },
        SpecType::Duration { unit } => "duration["@ + unit_display(unit) + "]"@,
        SpecType::Interval { unit } => match unit {
            IntervalUnit::YearMonth => "interval[year_month]"@,
            IntervalUnit::DayTime => "interval[day_time]"@,
            IntervalUnit::MonthDayNano => "interval[month_day_nano]"@,
        },
        SpecType::Decimal128 { precision, scale } => "decimal128("@ + decimal(precision as int)
            + ", "@ + decimal(scale as int) + ")"@,
        SpecType::Decimal256 { precision, scale } => "decimal256("@ + decimal(precision as int)
            + ", "@ + decimal(scale as int) + ")"@,
        SpecType::List { element } => "list<"@ + type_display(element.arrow_type) + ">"@,
        SpecType::LargeList { element } => "large_list<"@ + type_display(element.arrow_type)
            + ">"@,
        SpecType::FixedSizeList { element, size } => "fixed_size_list<"@ + type_display(
            element.arrow_type,
        ) + ">("@ + decimal(size as int) + ")"@,
        SpecType::Struct { .. } => "struct"@,
        SpecType::MapType { key, value, .. } => "map<"@ + type_display(key.arrow_type) + ", "@
            + type_display(value.arrow_type) + ">"@,
        SpecType::Union { .. } => "union"@,
        SpecType::Dictionary { index_type, value_type } => "dictionary<"@ + type_display(
            *index_type,
        ) + ", "@ + type_display(*value_type) + ">"@,
    }
}

impl ArrowType {
    /// The type in type-string syntax, as `Display` prints it.
    #[verifier::rlimit(50)]
    pub fn to_string(&self) -> (r: String)
        ensures
            r@ == type_display(self@),
        decreases self,
    {
        let r = match self {
            ArrowType::Null => "null".to_owned(),
            ArrowType::Boolean => "boolean".to_owned(),
            ArrowType::Int8 => "int8".to_owned(),
            ArrowType::Int16 => "int16".to_owned(),
            ArrowType::Int32 => "int32".to_owned(),
            ArrowType::Int64 => "int64".to_owned(),
            ArrowType::UInt8 => "uint8".to_owned(),
            ArrowType::UInt16 => "uint16".to_owned(),
            ArrowType::UInt32 => "uint32".to_owned(),
            ArrowType::UInt64 => "uint64".to_owned(),
            ArrowType::Float16 => "float16".to_owned(),
            ArrowType::Float32 => "float32".to_owned(),
            ArrowType::Float64 => "float64".to_owned(),
            ArrowType::Utf8 => "utf8".to_owned(),
            ArrowType::LargeUtf8 => "large_utf8".to_owned(),
            ArrowType::Binary => "binary".to_owned(),
            ArrowType::LargeBinary => "large_binary".to_owned(),
            ArrowType::FixedSizeBinary { byte_width } => {
                let w = int_to_string(*byte_width as i64);
                str3("fixed_size_binary(", w.as_str(), ")")
            },
            ArrowType::Date32 => "date32".to_owned(),
            ArrowType::Date64 => "date64".to_owned(),
            ArrowType::Time32 { unit } => {
                let u = unit.to_string();
                str3("time32[", u.as_str(), "]")
            },
            ArrowType::Time64 { unit } => {
                let u = unit.to_string();
                str3("time64[", u.as_str(), "]")
            },
            ArrowType::Timestamp { unit, timezone } => {
                let u = unit.to_string();
                match timezone {
                    None => str3("timestamp[", u.as_str(), "]"),
                    Some(tz) => str5("timestamp[", u.as_str(), ", ", tz.as_str(), "]"),
                }
            },
            ArrowType::Duration { unit } => {
                let u = unit.to_string();
                str3("duration[", u.as_str(), "]")
            },
            ArrowType::Interval { unit } => match unit {
                IntervalUnit::YearMonth => "interval[year_month]".to_owned(),
                IntervalUnit::DayTime => "interval[day_time]".to_owned(),
                IntervalUnit::MonthDayNano => "interval[month_day_nano]".to_owned(),
            },
            ArrowType::Decimal128 { precision, scale } => {
                let p = int_to_string(*precision as i64);
                let sc = int_to_string(*scale as i64);
                str5("decimal128(", p.as_str(), ", ", sc.as_str(), ")")
            },
            ArrowType::Decimal256 { precision, scale } => {
                let p = int_to_string(*precision as i64);
                let sc = int_to_string(*scale as i64);
                str5("decimal256(", p.as_str(), ", ", sc.as_str(), ")")
            },
            ArrowType::List { element } => {
                let e = element.arrow_type.to_string();
                assert(e@ == type_display(element@.arrow_type));
                str3("list<", e.as_str(), ">")
            },
            ArrowType::LargeList { element } => {
                let e = element.arrow_type.to_string();
                assert(e@ == type_display(element@.arrow_type));
                str3("large_list<", e.as_str(), ">")
            },
            ArrowType::FixedSizeList { element, size } => {
                let e = element.arrow_type.to_string();
                assert(e@ == type_display(element@.arrow_type));
                let n = int_to_string(*size as i64);
                str5("fixed_size_list<", e.as_str(), ">(", n.as_str(), ")")
            },
            ArrowType::Struct { .. } => "struct".to_owned(),
            ArrowType::MapType { key, value, .. } => {
                let ks = key.arrow_type.to_string();
                let vs = value.arrow_type.to_string();
                assert(ks@ == type_display(key@.arrow_type));
                assert(vs@ == type_display(value@.arrow_type));
                str5("map<", ks.as_str(), ", ", vs.as_str(), ">")
            },
            ArrowType::Union { .. } => "union".to_owned(),
            ArrowType::Dictionary { index_type, value_type } => {
                let is = index_type.to_string();
                let vs = value_type.to_string();
                assert(is@ == type_display((**index_type)@));
                assert(vs@ == type_display((**value_type)@));
                str5("dictionary<", is.as_str(), ", ", vs.as_str(), ">")
            },
        };
        r
    }
}

} // verus!
