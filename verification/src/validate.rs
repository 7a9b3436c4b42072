//! Validation of a schema file: unique, non-empty names, and the Arrow
//! constraints on decimal, time, fixed-size and nested types.
use vstd::prelude::*;

use crate::arrow_type::{ArrowType, SpecType, TimeUnit, unit_display};
use crate::error::{SchemaError, SpecError};
use crate::schema_def::{ArrowFieldDef, ArrowSchemaFile, SpecField, SpecSchema, fields_view};
use crate::text::{decimal, int_to_string, str2, str3, str4, str5};

verus! {

// ---------------------------------------------------------------------------
// What validation means
// ---------------------------------------------------------------------------

/// The position of the first name that repeats an earlier one, from `j` on.
pub open spec fn dup_from(names: Seq<Seq<char>>, j: int) -> Option<int>
    decreases names.len() - j,
{
    if j < 0 || j >= names.len() {
        None
    } else if exists|i: int| 0 <= i < j && names[i] == names[j] {
        Some(j)
    } else {
        dup_from(names, j + 1)
    }
}

/// The position of the first repeated name.
pub open spec fn first_dup(names: Seq<Seq<char>>) -> Option<int> {
    dup_from(names, 0)
}

pub open spec fn field_names(fs: Seq<SpecField>) -> Seq<Seq<char>> {
    fs.map_values(|f: SpecField| f.name)
}

pub open spec fn schema_names(ss: Seq<SpecSchema>) -> Seq<Seq<char>> {
    ss.map_values(|s: SpecSchema| s.name)
}

/// `{text} in '{context}'`
pub open spec fn in_ctx_spec(text: Seq<char>, ctx: Seq<char>) -> Seq<char> {
    text + " in '"@ + ctx + "'"@
}

/// No two fields share a name.
pub open spec fn check_dup_fields(context: Seq<char>, fs: Seq<SpecField>) -> Result<(), Seq<char>> {
    match first_dup(field_names(fs)) {
        Some(j) => Err("duplicate field name '"@ + fs[j].name + "' in '"@ + context + "'"@),
        None => Ok(()),
    }
}

/// A field is valid: its name is not empty and its type is valid.
pub open spec fn check_field(context: Seq<char>, f: SpecField) -> Result<(), Seq<char>>
    decreases f, 0int,
{
    if f.name.len() == 0 {
        Err("field name must not be empty in '"@ + context + "'"@)
    } else {
        check_type(context, f.name, f.arrow_type)
    }
}

/// `fs[k..]` are valid, the first invalid one decides the message.
pub open spec fn check_fields(context: Seq<char>, fs: Seq<SpecField>, k: int) -> Result<(), Seq<char>>
    decreases fs, fs.len() - k,
{
    if k < 0 || k >= fs.len() {
        Ok(())
    } else {
        match check_field(context, fs[k]) {
            Ok(()) => check_fields(context, fs, k + 1),
            Err(m) => Err(m),
        }
    }
}

/// The members of a struct or union: at least one, unique names, each valid.
pub open spec fn check_members(kind: Seq<char>, ctx: Seq<char>, fs: Seq<SpecField>) -> Result<(), Seq<char>>
    decreases fs, fs.len() + 1,
{
    if fs.len() == 0 {
        Err(kind + " must have at least one field in '"@ + ctx + "'"@)
    } else {
        match check_dup_fields(ctx, fs) {
            Err(m) => Err(m),
            Ok(()) => check_fields(ctx, fs, 0),
        }
    }
}

/// The constraints of a type, for the field `name` in `context`.
pub open spec fn check_type(context: Seq<char>, name: Seq<char>, t: SpecType) -> Result<(), Seq<char>>
    decreases t, 0int,
{
    let ctx = context + "."@ + name;
    match t {
        SpecType::Decimal128 { precision, scale } => if precision == 0 || precision > 38 {
            Err(in_ctx_spec("decimal128 precision must be 1..=38, got "@ + decimal(precision as int), ctx))
        } else if scale < 0 || scale > precision {
            Err(in_ctx_spec("decimal128 scale must be 0..="@ + decimal(precision as int) + ", got "@ + decimal(
                    scale as int,
                ), ctx))
        } else {
            Ok(())
        },
        SpecType::Decimal256 { precision, scale } => if precision == 0 || precision > 76 {
            Err(in_ctx_spec("decimal256 precision must be 1..=76, got "@ + decimal(precision as int), ctx))
        } else if scale < 0 || scale > precision {
            Err(in_ctx_spec("decimal256 scale must be 0..="@ + decimal(precision as int) + ", got "@ + decimal(
                    scale as int,
                ), ctx))
        } else {
            Ok(())
        },
        SpecType::Time32 { unit } => if unit == TimeUnit::Second || unit == TimeUnit::Millisecond {
            Ok(())
        } else {
            Err(in_ctx_spec("time32 only supports Second or Millisecond, got "@ + unit_display(unit), ctx))
        },
        SpecType::Time64 { unit } => if unit == TimeUnit::Microsecond || unit
            == TimeUnit::Nanosecond {
            Ok(())
        } else {
            Err(in_ctx_spec("time64 only supports Microsecond or Nanosecond, got "@ + unit_display(unit), ctx))
        },
        SpecType::FixedSizeBinary { byte_width } => if byte_width <= 0 {
            Err(in_ctx_spec("fixed_size_binary byte_width must be positive, got "@ + decimal(byte_width as int), ctx))
        } else {
            Ok(())
        },
        SpecType::FixedSizeList { element, size } => if size <= 0 {
            Err(in_ctx_spec("fixed_size_list size must be positive, got "@ + decimal(size as int), ctx))
        } else {
            check_field(ctx, *element)
        },
        SpecType::Struct { fields } => check_members("struct"@, ctx, fields),
        SpecType::List { element } => check_field(ctx, *element),
        SpecType::LargeList { element } => check_field(ctx, *element),
        SpecType::MapType { key, value, .. } => match check_field(ctx, *key) {
            Err(m) => Err(m),
            Ok(()) => check_field(ctx, *value),
        },
        SpecType::Union { fields, .. } => check_members("union"@, ctx, fields),
        _ => Ok(()),
    }
}

/// Each schema from the `k`-th on has a name, unique field names and valid
/// fields.
pub open spec fn check_schemas(ss: Seq<SpecSchema>, k: int) -> Result<(), Seq<char>>
    decreases ss.len() - k,
{
    if k < 0 || k >= ss.len() {
        Ok(())
    } else if ss[k].name.len() == 0 {
        Err("schema name must not be empty"@)
    } else {
        match check_dup_fields(ss[k].name, ss[k].fields) {
            Err(m) => Err(m),
            Ok(()) => match check_fields(ss[k].name, ss[k].fields, 0) {
                Err(m) => Err(m),
                Ok(()) => check_schemas(ss, k + 1),
            },
        }
    }
}

/// What `validate` answers on a schema file: schema names are unique, then
/// every schema is checked in order; the first violation gives the message.
pub open spec fn check_file(ss: Seq<SpecSchema>) -> Result<(), Seq<char>> {
    match first_dup(schema_names(ss)) {
        Some(j) => Err("duplicate schema name: "@ + ss[j].name),
        None => check_schemas(ss, 0),
    }
}

pub open spec fn validation_result(ss: Seq<SpecSchema>) -> Result<(), SpecError> {
    match check_file(ss) {
        Ok(()) => Ok(()),
        Err(m) => Err(SpecError::Validation(m)),
    }
}

pub open spec fn unit_result_view(r: Result<(), SchemaError>) -> Result<(), SpecError> {
    match r {
        Ok(()) => Ok(()),
        Err(e) => Err(e@),
    }
}

pub open spec fn msg_result(r: Result<(), String>) -> Result<(), Seq<char>> {
    match r {
        Ok(()) => Ok(()),
        Err(m) => Err(m@),
    }
}

// ---------------------------------------------------------------------------
// Validation
// ---------------------------------------------------------------------------

/// Validate an Arrow schema file for common errors.
pub fn validate(file: &ArrowSchemaFile) -> (r: Result<(), SchemaError>)
    ensures
        unit_result_view(r) == validation_result(file@),
{
    let ghost ss = file@;
    match validate_no_duplicate_schema_names(file) {
        Err(m) => {
            return Err(SchemaError::Validation(m));
        },
        Ok(()) => {},
    }
    let mut k: usize = 0;
    while k < file.schemas.len()
        invariant
            ss == file@,
            k <= ss.len(),
            check_file(ss) == check_schemas(ss, k as int),
        decreases ss.len() - k,
    {
        let schema = &file.schemas[k];
        proof {
            assert(ss[k as int] == schema@);
        }
        if schema.name.as_str().is_empty() {
            return Err(SchemaError::Validation("schema name must not be empty".to_owned()));
        }
        match validate_no_duplicate_field_names(schema.name.as_str(), &schema.fields) {
            Err(m) => {
                return Err(SchemaError::Validation(m));
            },
            Ok(()) => {},
        }
        match validate_fields(schema.name.as_str(), &schema.fields) {
            Err(m) => {
                return Err(SchemaError::Validation(m));
            },
            Ok(()) => {},
        }
        k = k + 1;
    }
    Ok(())
}

/// No two schemas share a name.
fn validate_no_duplicate_schema_names(file: &ArrowSchemaFile) -> (r: Result<(), String>)
    ensures
        match first_dup(schema_names(file@)) {
            Some(j) => msg_result(r) == Err::<(), Seq<char>>("duplicate schema name: "@ + file@[j].name),
            None => r is Ok,
        },
{
    let ghost names = schema_names(file@);
    let n = file.schemas.len();
    let mut j: usize = 0;
    while j < n
        invariant
            n == file.schemas@.len(),
            names == schema_names(file@),
            j <= n,
            first_dup(names) == dup_from(names, j as int),
        decreases n - j,
    {
        let mut i: usize = 0;
        while i < j
            invariant
                n == file.schemas@.len(),
                names == schema_names(file@),
                i <= j < n,
                first_dup(names) == dup_from(names, j as int),
                forall|m: int| 0 <= m < i ==> names[m] != names[j as int],
            decreases j - i,
        {
            proof {
                assert(names[i as int] == file.schemas@[i as int].name@);
                assert(names[j as int] == file.schemas@[j as int].name@);
            }
            if file.schemas[i].name == file.schemas[j].name {
                proof {
                    assert(file@[j as int].name == names[j as int]);
                    assert(names[i as int] == names[j as int]);
                    assert(dup_from(names, j as int) == Some(j as int));
                    assert(first_dup(names) == Some(j as int));
                }
                let m = str2("duplicate schema name: ", file.schemas[j].name.as_str());
                assert(m@ == "duplicate schema name: "@ + file@[j as int].name);
                return Err(m);
            }
            i = i + 1;
        }
        j = j + 1;
    }
    Ok(())
}

/// No two fields share a name.
fn validate_no_duplicate_field_names(context: &str, fields: &Vec<ArrowFieldDef>) -> (r: Result<
    (),
    String,
>)
    ensures
        msg_result(r) == check_dup_fields(context@, fields_view(fields@)),
{
    let ghost names = field_names(fields_view(fields@));
    let n = fields.len();
    let mut j: usize = 0;
    while j < n
        invariant
            n == fields@.len(),
            names == field_names(fields_view(fields@)),
            j <= n,
            first_dup(names) == dup_from(names, j as int),
        decreases n - j,
    {
        let mut i: usize = 0;
        while i < j
            invariant
                n == fields@.len(),
                names == field_names(fields_view(fields@)),
                i <= j < n,
                first_dup(names) == dup_from(names, j as int),
                forall|m: int| 0 <= m < i ==> names[m] != names[j as int],
            decreases j - i,
        {
            proof {
                assert(names[i as int] == fields@[i as int].name@);
                assert(names[j as int] == fields@[j as int].name@);
            }
            if fields[i].name == fields[j].name {
                proof {
                    assert(fields_view(fields@)[j as int].name == names[j as int]);
                    assert(names[i as int] == names[j as int]);
                    assert(dup_from(names, j as int) == Some(j as int));
                    assert(fields_view(fields@)[j as int] == fields@[j as int]@);
                }
                return Err(
                    str5(
                        "duplicate field name '",
                        fields[j].name.as_str(),
                        "' in '",
                        context,
                        "'",
                    ),
                );
            }
            i = i + 1;
        }
        j = j + 1;
    }
    Ok(())
}

/// Validate the fields in order.
fn validate_fields(context: &str, fields: &Vec<ArrowFieldDef>) -> (r: Result<(), String>)
    ensures
        msg_result(r) == check_fields(context@, fields_view(fields@), 0),
    decreases fields, 0nat,
{
    let ghost fs = fields_view(fields@);
    let mut k: usize = 0;
    while k < fields.len()
        invariant
            fs == fields_view(fields@),
            k <= fields@.len(),
            check_fields(context@, fs, 0) == check_fields(context@, fs, k as int),
        decreases fields@.len() - k,
    {
        proof {
            assert(fs[k as int] == fields@[k as int]@);
        }
        match validate_field_recursive(context, &fields[k]) {
            Err(m) => {
                return Err(m);
            },
            Ok(()) => {},
        }
        k = k + 1;
    }
    Ok(())
}

/// Recursively validate a field and its nested types.
fn validate_field_recursive(context: &str, field: &ArrowFieldDef) -> (r: Result<(), String>)
    ensures
        msg_result(r) == check_field(context@, field@),
    decreases field, 0nat,
{
    if field.name.as_str().is_empty() {
        return Err(str3("field name must not be empty in '", context, "'"));
    }
    validate_arrow_type(context, field.name.as_str(), &field.arrow_type)
}

/// The members of a struct or union.
fn validate_members(kind: &str, ctx: &str, fields: &Vec<ArrowFieldDef>) -> (r: Result<(), String>)
    ensures
        msg_result(r) == check_members(kind@, ctx@, fields_view(fields@)),
    decreases fields, 1nat,
{
    if fields.len() == 0 {
        return Err(str4(kind, " must have at least one field in '", ctx, "'"));
    }
    match validate_no_duplicate_field_names(ctx, fields) {
        Err(m) => {
            return Err(m);
        },
        Ok(()) => {},
    }
    validate_fields(ctx, fields)
}

/// `text in 'ctx'`
fn in_ctx(text: &str, ctx: &str) -> (r: String)
    ensures
        r@ == in_ctx_spec(text@, ctx@),
{
    str4(text, " in '", ctx, "'")
}

/// Validate Arrow type constraints.
fn validate_arrow_type(context: &str, field_name: &str, ty: &ArrowType) -> (r: Result<(), String>)
    ensures
        msg_result(r) == check_type(context@, field_name@, ty@),
    decreases ty, 0nat,
{
    let ctx = str3(context, ".", field_name);
    let c = ctx.as_str();
    match ty {
        ArrowType::Decimal128 { precision, scale } => {
            if *precision == 0 || *precision > 38 {
                let p = int_to_string(*precision as i64);
                return Err(in_ctx(str2("decimal128 precision must be 1..=38, got ", p.as_str()).as_str(), c));
            }
            if *scale < 0 || *scale as u8 > *precision {
                let p = int_to_string(*precision as i64);
                let s = int_to_string(*scale as i64);
                return Err(in_ctx(str4("decimal128 scale must be 0..=", p.as_str(), ", got ", s.as_str()).as_str(), c));
            }
        },
        ArrowType::Decimal256 { precision, scale } => {
            if *precision == 0 || *precision > 76 {
                let p = int_to_string(*precision as i64);
                return Err(in_ctx(str2("decimal256 precision must be 1..=76, got ", p.as_str()).as_str(), c));
            }
            if *scale < 0 || *scale as u8 > *precision {
                let p = int_to_string(*precision as i64);
                let s = int_to_string(*scale as i64);
                return Err(in_ctx(str4("decimal256 scale must be 0..=", p.as_str(), ", got ", s.as_str()).as_str(), c));
            }
        },
        ArrowType::Time32 { unit } => match unit {
            TimeUnit::Second | TimeUnit::Millisecond => {},
            _ => {
                let u = unit.to_string();
                return Err(in_ctx(str2("time32 only supports Second or Millisecond, got ", u.as_str()).as_str(), c));
            },
        },
        ArrowType::Time64 { unit } => match unit {
            TimeUnit::Microsecond | TimeUnit::Nanosecond => {},
            _ => {
                let u = unit.to_string();
                return Err(in_ctx(str2("time64 only supports Microsecond or Nanosecond, got ", u.as_str()).as_str(), c));
            },
        },
        ArrowType::FixedSizeBinary { byte_width } => {
            if *byte_width <= 0 {
                let w = int_to_string(*byte_width as i64);
                return Err(in_ctx(str2("fixed_size_binary byte_width must be positive, got ", w.as_str()).as_str(), c));
            }
        },
        ArrowType::FixedSizeList { element, size } => {
            if *size <= 0 {
                let n = int_to_string(*size as i64);
                return Err(in_ctx(str2("fixed_size_list size must be positive, got ", n.as_str()).as_str(), c));
            }
            return validate_field_recursive(c, element);
        },
        ArrowType::Struct { fields } => {
            return validate_members("struct", c, fields);
        },
        ArrowType::List { element } => {
            return validate_field_recursive(c, element);
        },
        ArrowType::LargeList { element } => {
            return validate_field_recursive(c, element);
        },
        ArrowType::MapType { key, value, .. } => {
            match validate_field_recursive(c, key) {
                Err(m) => {
                    return Err(m);
                },
                Ok(()) => {},
            }
            return validate_field_recursive(c, value);
        },
        ArrowType::Union { fields, .. } => {
            return validate_members("union", c, fields);
        },
        _ => {},
    }
    Ok(())
}

// ---------------------------------------------------------------------------
// What a valid file is
// ---------------------------------------------------------------------------

/// No name occurs twice.
pub open spec fn distinct(names: Seq<Seq<char>>) -> bool {
    forall|i: int, j: int| 0 <= i < j < names.len() ==> names[i] != names[j]
}

/// The Arrow constraints on a type and on the fields nested in it.
pub open spec fn type_valid(t: SpecType) -> bool
    decreases t, 0int,
{
    match t {
        SpecType::Decimal128 { precision, scale } => 1 <= precision <= 38 && 0 <= scale <= precision,
        SpecType::Decimal256 { precision, scale } => 1 <= precision <= 76 && 0 <= scale <= precision,
        SpecType::Time32 { unit } => unit == TimeUnit::Second || unit == TimeUnit::Millisecond,
        SpecType::Time64 { unit } => unit == TimeUnit::Microsecond || unit == TimeUnit::Nanosecond,
        SpecType::FixedSizeBinary { byte_width } => byte_width > 0,
        SpecType::FixedSizeList { element, size } => size > 0 && field_valid(*element),
        SpecType::Struct { fields } => members_valid(fields),
        SpecType::List { element } => field_valid(*element),
        SpecType::LargeList { element } => field_valid(*element),
        SpecType::MapType { key, value, .. } => field_valid(*key) && field_valid(*value),
        SpecType::Union { fields, .. } => members_valid(fields),
        _ => true,
    }
}

/// A field has a name and a valid type.
pub open spec fn field_valid(f: SpecField) -> bool
    decreases f, 0int,
{
    f.name.len() > 0 && type_valid(f.arrow_type)
}

/// The fields from the `k`-th on are valid.
pub open spec fn fields_valid(fs: Seq<SpecField>, k: int) -> bool
    decreases fs, fs.len() - k,
{
    if k < 0 || k >= fs.len() {
        true
    } else {
        field_valid(fs[k]) && fields_valid(fs, k + 1)
    }
}

/// The members of a struct or union: at least one, with distinct names,
/// each valid.
pub open spec fn members_valid(fs: Seq<SpecField>) -> bool
    decreases fs, fs.len() + 1,
{
    fs.len() > 0 && distinct(field_names(fs)) && fields_valid(fs, 0)
}

/// A valid schema file: distinct, non-empty schema names, and in each
/// schema distinct field names and valid fields.
pub open spec fn file_valid(ss: Seq<SpecSchema>) -> bool {
    &&& distinct(schema_names(ss))
    &&& forall|i: int| 0 <= i < ss.len() ==> (#[trigger] ss[i]).name.len() > 0
    &&& forall|i: int| 0 <= i < ss.len() ==> distinct(field_names((#[trigger] ss[i]).fields))
    &&& forall|i: int| 0 <= i < ss.len() ==> fields_valid((#[trigger] ss[i]).fields, 0)
}

proof fn lemma_dup_from(names: Seq<Seq<char>>, j: int)
    requires
        0 <= j,
    ensures
        dup_from(names, j) is None <==> forall|k: int, i: int|
            j <= k < names.len() && 0 <= i < k ==> names[i] != names[k],
    decreases names.len() - j,
{
    if j < names.len() {
        lemma_dup_from(names, j + 1);
        if !(exists|i: int| 0 <= i < j && names[i] == names[j]) {
            assert forall|k: int, i: int| j <= k < names.len() && 0 <= i < k && (forall|k2: int, i2: int|
                j + 1 <= k2 < names.len() && 0 <= i2 < k2 ==> names[i2] != names[k2]) implies names[i]
                != names[k] by {
                if k == j {
                    assert(!(0 <= i < j && names[i] == names[j]));
                }
            }
        }
    }
}

proof fn lemma_first_dup(names: Seq<Seq<char>>)
    ensures
        first_dup(names) is None <==> distinct(names),
{
    lemma_dup_from(names, 0);
    if first_dup(names) is None {
        assert forall|i: int, j: int| 0 <= i < j < names.len() implies names[i] != names[j] by {
            assert(0 <= j < names.len() && 0 <= i < j);
        }
    }
}

proof fn lemma_check_type(context: Seq<char>, name: Seq<char>, t: SpecType)
    ensures
        check_type(context, name, t) is Ok <==> type_valid(t),
    decreases t, 0int,
{
    let ctx = context + "."@ + name;
    match t {
        SpecType::FixedSizeList { element, size } => {
            lemma_check_field(ctx, *element);
        },
        SpecType::Struct { fields } => {
            lemma_check_members("struct"@, ctx, fields);
        },
        SpecType::List { element } => {
            lemma_check_field(ctx, *element);
        },
        SpecType::LargeList { element } => {
            lemma_check_field(ctx, *element);
        },
        SpecType::MapType { key, value, .. } => {
            lemma_check_field(ctx, *key);
            lemma_check_field(ctx, *value);
        },
        SpecType::Union { fields, .. } => {
            lemma_check_members("union"@, ctx, fields);
        },
        _ => {},
    }
}

proof fn lemma_check_field(context: Seq<char>, f: SpecField)
    ensures
        check_field(context, f) is Ok <==> field_valid(f),
    decreases f, 0int,
{
    if f.name.len() > 0 {
        lemma_check_type(context, f.name, f.arrow_type);
    }
}

proof fn lemma_check_fields(context: Seq<char>, fs: Seq<SpecField>, k: int)
    ensures
        check_fields(context, fs, k) is Ok <==> fields_valid(fs, k),
    decreases fs, fs.len() - k,
{
    if 0 <= k < fs.len() {
        lemma_check_field(context, fs[k]);
        lemma_check_fields(context, fs, k + 1);
    }
}

proof fn lemma_check_members(kind: Seq<char>, ctx: Seq<char>, fs: Seq<SpecField>)
    ensures
        check_members(kind, ctx, fs) is Ok <==> members_valid(fs),
    decreases fs, fs.len() + 1,
{
    lemma_first_dup(field_names(fs));
    lemma_check_fields(ctx, fs, 0);
}

proof fn lemma_check_schemas(ss: Seq<SpecSchema>, k: int)
    requires
        0 <= k,
    ensures
        check_schemas(ss, k) is Ok <==> forall|i: int|
            k <= i < ss.len() ==> {
                &&& (#[trigger] ss[i]).name.len() > 0
                &&& distinct(field_names(ss[i].fields))
                &&& fields_valid(ss[i].fields, 0)
            },
    decreases ss.len() - k,
{
    if k < ss.len() {
        lemma_first_dup(field_names(ss[k].fields));
        lemma_check_fields(ss[k].name, ss[k].fields, 0);
        lemma_check_schemas(ss, k + 1);
    }
}

/// `validate` accepts a schema file exactly when it is valid: its schema
/// names are distinct and not empty, and in each schema the field names are
/// distinct and every field (with the fields nested in it) has a name and
/// meets the Arrow constraints on its type.
pub proof fn law_validate_accepts_exactly_valid_files(ss: Seq<SpecSchema>)
    ensures
        validation_result(ss) is Ok <==> file_valid(ss),
{
    lemma_first_dup(schema_names(ss));
    lemma_check_schemas(ss, 0);
}

/// The repeated name that `first_dup` reports is the first name, in order,
/// that occurs at an earlier index.
proof fn lemma_first_dup_least(names: Seq<Seq<char>>)
    ensures
        first_dup(names) matches Some(j) ==> {
            &&& 0 <= j < names.len()
            &&& exists|i: int| 0 <= i < j && names[i] == names[j]
            &&& forall|k: int, i: int| 0 <= i < k < j ==> names[i] != names[k]
        },
{
    lemma_dup_from_least(names, 0);
}

proof fn lemma_dup_from_least(names: Seq<Seq<char>>, j: int)
    requires
        0 <= j,
        forall|k: int, i: int| 0 <= i < k < j ==> names[i] != names[k],
    ensures
        dup_from(names, j) matches Some(m) ==> {
            &&& j <= m < names.len()
            &&& exists|i: int| 0 <= i < m && names[i] == names[m]
            &&& forall|k: int, i: int| 0 <= i < k < m ==> names[i] != names[k]
        },
    decreases names.len() - j,
{
    if j < names.len() && !(exists|i: int| 0 <= i < j && names[i] == names[j]) {
        assert forall|k: int, i: int| 0 <= i < k < j + 1 implies names[i] != names[k] by {
            if k == j {
                assert(!(0 <= i < j && names[i] == names[j]));
            }
        }
        lemma_dup_from_least(names, j + 1);
    }
}

/// The field-name check of `validate`: it accepts exactly the fields whose
/// names are distinct, and otherwise names the first field, in order, whose
/// name occurs at an earlier index.
pub proof fn law_duplicate_field_names(context: Seq<char>, fs: Seq<SpecField>)
    ensures
        check_dup_fields(context, fs) is Ok <==> distinct(field_names(fs)),
        check_dup_fields(context, fs) is Err ==> exists|j: int|
            {
                &&& 0 <= j < fs.len()
                &&& (exists|i: int| 0 <= i < j && fs[i].name == fs[j].name)
                &&& (forall|k: int, i: int| 0 <= i < k < j ==> fs[i].name != fs[k].name)
                &&& check_dup_fields(context, fs) == Err::<(), Seq<char>>(
                    "duplicate field name '"@ + fs[j].name + "' in '"@ + context + "'"@,
                )
            },
{
    let names = field_names(fs);
    lemma_first_dup(names);
    lemma_first_dup_least(names);
    if let Some(j) = first_dup(names) {
        assert forall|k: int, i: int| 0 <= i < k < j implies fs[i].name != fs[k].name by {
            assert(names[i] == fs[i].name && names[k] == fs[k].name);
        }
        let i = choose|i: int| 0 <= i < j && names[i] == names[j];
        assert(fs[i].name == fs[j].name);
    }
}

/// The type check of `validate`, for a field `name` in `context`: it accepts
/// a type exactly when the type meets the Arrow constraints (decimal
/// precision and scale, time units, positive sizes and widths, structs and
/// unions with at least one member and distinct member names) together with
/// every field nested in it, each of which must also have a name.
pub proof fn law_type_check_accepts_exactly_valid_types(
    context: Seq<char>,
    name: Seq<char>,
    t: SpecType,
)
    ensures
        check_type(context, name, t) is Ok <==> type_valid(t),
{
    lemma_check_type(context, name, t);
}

/// The field check of `validate`: it accepts a field exactly when the field
/// has a name and a valid type.
pub proof fn law_field_check_accepts_exactly_valid_fields(context: Seq<char>, f: SpecField)
    ensures
        check_field(context, f) is Ok <==> field_valid(f),
{
    lemma_check_field(context, f);
}

} // verus!
