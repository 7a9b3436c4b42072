//! The `{Name}Builder` struct with a typed `append()` and `finish()`.
use vstd::prelude::*;

use crate::arrow_type::{ArrowType, SpecType};
use crate::codegen::companion_gen::{
    CompanionInfo, SpecCompanion, companion_for, companions_of, law_struct_fields_have_companions,
    pairs_view, struct_members, type_ref_spec,
};
use crate::codegen::plan::{CodePlan, SpecOp, ident, line, open, rust_field_ident};
use crate::codegen::reader_gen::all_info_ok;
use crate::codegen::type_mapping::{info_ok, members_ok, rust_type_info, type_info};
use crate::schema_def::{ArrowFieldDef, ArrowSchemaDef, SpecField, SpecSchema, fields_view};
use crate::text::{decimal, join, join_strings, str2, str3, str4, str5, str_eq, usize_to_string, views};

verus! {

// ---------------------------------------------------------------------------
// Companions by field name
// ---------------------------------------------------------------------------

/// The companion registered under a field name. The pairs are read as a
/// map: a later pair replaces an earlier one with the same name.
pub open spec fn lookup(cs: Seq<(Seq<char>, SpecCompanion)>, key: Seq<char>) -> Option<
    SpecCompanion,
>
    decreases cs.len(),
{
    if cs.len() == 0 {
        None
    } else if cs.last().0 == key {
        Some(cs.last().1)
    } else {
        lookup(cs.drop_last(), key)
    }
}

proof fn lemma_lookup_some(cs: Seq<(Seq<char>, SpecCompanion)>, key: Seq<char>, c: SpecCompanion)
    requires
        cs.contains((key, c)),
    ensures
        lookup(cs, key) is Some,
    decreases cs.len(),
{
    let p = choose|p: int| 0 <= p < cs.len() && cs[p] == (key, c);
    if cs.last().0 != key {
        assert(p < cs.len() - 1);
        assert(cs.drop_last()[p] == (key, c));
        lemma_lookup_some(cs.drop_last(), key, c);
    }
}

/// When the builder of a schema is generated with the schema's companions,
/// every field that holds a struct, directly or in a list, finds a
/// companion under its name, so its `append` parameter is a companion type.
pub proof fn law_struct_fields_find_companions(s: SpecSchema, i: int)
    requires
        0 <= i < s.fields.len(),
        struct_members(s.fields[i].arrow_type) is Some,
    ensures
        lookup(companions_of(s), s.fields[i].name) is Some,
{
    law_struct_fields_have_companions(s, i);
    let x = companion_for(s.name, s.fields[i].name, struct_members(s.fields[i].arrow_type)->0);
    lemma_lookup_some(companions_of(s), s.fields[i].name, x.1);
}

fn find_companion<'a>(companions: &'a Vec<(String, CompanionInfo)>, name: &str) -> (r: Option<
    &'a CompanionInfo,
>)
    ensures
        match r {
            Some(c) => lookup(pairs_view(companions@), name@) == Some(c@),
            None => lookup(pairs_view(companions@), name@) is None,
        },
{
    let ghost cs = pairs_view(companions@);
    let mut i = companions.len();
    assert(cs.take(i as int) =~= cs);
    while i > 0
        invariant
            i <= companions@.len(),
            cs == pairs_view(companions@),
            lookup(cs, name@) == lookup(cs.take(i as int), name@),
        decreases i,
    {
        let pair = &companions[i - 1];
        proof {
            assert(cs.take(i as int).last() == (pair.0@, pair.1@));
            assert(cs.take(i as int).drop_last() =~= cs.take(i - 1));
        }
        if str_eq(pair.0.as_str(), name) {
            return Some(&pair.1);
        }
        i = i - 1;
    }
    None
}

// ---------------------------------------------------------------------------
// What is written
// ---------------------------------------------------------------------------

/// The type of a field's parameter of `append`: the companion (by reference,
/// in a slice for a list), or the mapped append type; `Option` when nullable.
pub open spec fn append_param_type_spec(f: SpecField, cs: Seq<(Seq<char>, SpecCompanion)>) -> Seq<
    char,
> {
    match lookup(cs, f.name) {
        Some(c) => {
            let tr = type_ref_spec(c);
            match f.arrow_type {
                SpecType::List { .. } | SpecType::LargeList { .. } => if f.nullable {
                    "Option<&["@ + tr + "]>"@
                } else {
                    "&["@ + tr + "]"@
                },
                SpecType::Struct { .. } => if f.nullable {
                    "Option<&"@ + tr + ">"@
                } else {
                    "&"@ + tr
                },
                _ => tr,
            }
        },
        None => {
            let base = type_info(f.arrow_type).append_type;
            if f.nullable {
                "Option<"@ + base + ">"@
            } else {
                base
            }
        },
    }
}

/// The builder of struct member `i`, reached from the builder `owner`.
pub open spec fn member_builder(owner: Seq<char>, f: SpecField, i: int) -> Seq<char> {
    owner + ".field_builder::<"@ + type_info(f.arrow_type).builder_type + ">("@ + decimal(i)
        + ").unwrap()"@
}

/// Appends of the struct members from `k` on, each taken from `var.member`.
pub open spec fn member_appends(owner: Seq<char>, var: Seq<char>, fs: Seq<SpecField>, k: int) -> Seq<
    SpecOp,
>
    decreases fs.len() - k,
{
    if k < 0 || k >= fs.len() {
        Seq::empty()
    } else {
        let method = if fs[k].nullable {
            ".append_option("@
        } else {
            ".append_value("@
        };
        seq![line(member_builder(owner, fs[k], k) + method + var + "."@ + ident(fs[k].name) + ");"@)]
            + member_appends(owner, var, fs, k + 1)
    }
}

/// Null appends of the struct members from `k` on.
pub open spec fn member_nulls(owner: Seq<char>, fs: Seq<SpecField>, k: int) -> Seq<SpecOp>
    decreases fs.len() - k,
{
    if k < 0 || k >= fs.len() {
        Seq::empty()
    } else {
        seq![line(member_builder(owner, fs[k], k) + ".append_null();"@)] + member_nulls(
            owner,
            fs,
            k + 1,
        )
    }
}

/// The append of a struct field `n` through its companion.
pub open spec fn struct_append_ops(n: Seq<char>, nullable: bool, fs: Seq<SpecField>) -> Seq<SpecOp> {
    let owner = "self."@ + n;
    if nullable {
        seq![open("match "@ + n), open("Some(s) =>"@)] + member_appends(owner, "s"@, fs, 0) + seq![
            line("self."@ + n + ".append(true);"@),
            SpecOp::Close,
            open("None =>"@),
        ] + member_nulls(owner, fs, 0) + seq![
            line("self."@ + n + ".append(false);"@),
            SpecOp::Close,
            SpecOp::Close,
        ]
    } else {
        member_appends(owner, n, fs, 0) + seq![line("self."@ + n + ".append(true);"@)]
    }
}

/// The append of a list-of-struct field `n`, row by row.
pub open spec fn list_struct_append_ops(n: Seq<char>, nullable: bool, fs: Seq<SpecField>) -> Seq<
    SpecOp,
> {
    let rows = member_appends("self."@ + n + ".values()"@, "row"@, fs, 0) + seq![
        line("self."@ + n + ".values().append(true);"@),
        SpecOp::Close,
    ];
    if nullable {
        seq![open("match "@ + n), open("Some(rows) =>"@), open("for row in rows"@)] + rows + seq![
            line("self."@ + n + ".append(true);"@),
            SpecOp::Close,
            open("None =>"@),
            line("self."@ + n + ".append(false);"@),
            SpecOp::Close,
            SpecOp::Close,
        ]
    } else {
        seq![open("for row in "@ + n)] + rows + seq![line("self."@ + n + ".append(true);"@)]
    }
}

/// Strings and binaries are appended by reference, other values by copy.
pub open spec fn by_ref(t: SpecType) -> bool {
    match t {
        SpecType::Utf8 | SpecType::LargeUtf8 | SpecType::Binary | SpecType::LargeBinary
        | SpecType::FixedSizeBinary { .. } => true,
        _ => false,
    }
}

/// The loop that appends a list's values to its value builder.
pub open spec fn list_values_ops(n: Seq<char>, element_type: SpecType) -> Seq<SpecOp> {
    let append = if by_ref(element_type) {
        ".values().append_value(v);"@
    } else {
        ".values().append_value(*v);"@
    };
    seq![open("for v in values"@), line("self."@ + n + append), SpecOp::Close]
}

/// The append of a field that has no companion.
pub open spec fn plain_append_ops(f: SpecField) -> Seq<SpecOp> {
    let n = ident(f.name);
    match f.arrow_type {
        SpecType::List { element } => if f.nullable {
            seq![open("match "@ + n), open("Some(values) =>"@)] + list_values_ops(
                n,
                element.arrow_type,
            ) + seq![
                line("self."@ + n + ".append(true);"@),
                SpecOp::Close,
                open("None =>"@),
                line("self."@ + n + ".append(false);"@),
                SpecOp::Close,
                SpecOp::Close,
            ]
        } else {
            list_values_ops(n, element.arrow_type) + seq![line("self."@ + n + ".append(true);"@)]
        },
        _ => if by_ref(f.arrow_type) && f.nullable {
            seq![
                open("match "@ + n),
                line("Some(v) => self."@ + n + ".append_value(v),"@),
                line("None => self."@ + n + ".append_null(),"@),
                SpecOp::Close,
            ]
        } else if f.nullable {
            seq![line("self."@ + n + ".append_option("@ + n + ");"@)]
        } else {
            seq![line("self."@ + n + ".append_value("@ + n + ");"@)]
        },
    }
}

/// What `generate_field_append` writes for a field.
pub open spec fn field_append_ops(f: SpecField, cs: Seq<(Seq<char>, SpecCompanion)>) -> Seq<SpecOp> {
    let n = ident(f.name);
    if lookup(cs, f.name) is Some {
        match f.arrow_type {
            SpecType::Struct { fields } => struct_append_ops(n, f.nullable, fields),
            SpecType::List { element } => match element.arrow_type {
                SpecType::Struct { fields } => list_struct_append_ops(n, f.nullable, fields),
                _ => plain_append_ops(f),
            },
            _ => plain_append_ops(f),
        }
    } else {
        plain_append_ops(f)
    }
}

/// The `name: Type` parameters of `append`, one per field.
pub open spec fn params_of(fs: Seq<SpecField>, cs: Seq<(Seq<char>, SpecCompanion)>) -> Seq<
    Seq<char>,
> {
    Seq::new(fs.len(), |i: int| ident(fs[i].name) + ": "@ + append_param_type_spec(fs[i], cs))
}

/// The appends of the fields from `k` on.
pub open spec fn field_appends(fs: Seq<SpecField>, cs: Seq<(Seq<char>, SpecCompanion)>, k: int) -> Seq<
    SpecOp,
>
    decreases fs.len() - k,
{
    if k < 0 || k >= fs.len() {
        Seq::empty()
    } else {
        field_append_ops(fs[k], cs) + field_appends(fs, cs, k + 1)
    }
}

/// What `generate_append_method` writes.
pub open spec fn append_method_ops(s: SpecSchema, cs: Seq<(Seq<char>, SpecCompanion)>) -> Seq<
    SpecOp,
> {
    seq![
        line("/// Append a row to the builder."@),
        open("pub fn append(&mut self, "@ + join(params_of(s.fields, cs), ", "@) + ")"@),
    ] + field_appends(s.fields, cs, 0) + seq![SpecOp::Close]
}

/// The builder members, one per field.
pub open spec fn builder_members(fs: Seq<SpecField>) -> Seq<SpecOp> {
    Seq::new(
        fs.len(),
        |i: int| line(ident(fs[i].name) + ": "@ + type_info(fs[i].arrow_type).builder_type + ","@),
    )
}

/// The members of `new()`'s `Self { .. }`, one per field.
pub open spec fn builder_news(fs: Seq<SpecField>) -> Seq<SpecOp> {
    Seq::new(
        fs.len(),
        |i: int| line(ident(fs[i].name) + ": "@ + type_info(fs[i].arrow_type).builder_new + ","@),
    )
}

/// The members of `with_capacity()`'s `Self { .. }`, one per field.
pub open spec fn builder_capacities(fs: Seq<SpecField>) -> Seq<SpecOp> {
    Seq::new(
        fs.len(),
        |i: int|
            line(
                ident(fs[i].name) + ": "@ + type_info(fs[i].arrow_type).builder_with_capacity
                    + ","@,
            ),
    )
}

/// The finished columns, one per field.
pub open spec fn finish_columns(fs: Seq<SpecField>) -> Seq<SpecOp> {
    Seq::new(fs.len(), |i: int| line("Arc::new(self."@ + ident(fs[i].name) + ".finish()),"@))
}

/// The body of `len()`: the length of the first column, or zero.
pub open spec fn len_body(fs: Seq<SpecField>) -> SpecOp {
    if fs.len() > 0 {
        line("self."@ + ident(fs[0].name) + ".len()"@)
    } else {
        line("0"@)
    }
}

/// The struct with one builder per field.
pub open spec fn struct_part(n: Seq<char>, fs: Seq<SpecField>) -> Seq<SpecOp> {
    seq![line("/// Typed builder for "@ + n + " RecordBatches."@), open("pub struct "@ + n + "Builder"@)]
        + builder_members(fs) + seq![SpecOp::Close]
}

/// `new()`.
pub open spec fn new_part(fs: Seq<SpecField>) -> Seq<SpecOp> {
    seq![
        line("/// Create a new builder with default capacity."@),
        open("pub fn new() -> Self"@),
        open("Self"@),
    ] + builder_news(fs) + seq![SpecOp::Close, SpecOp::Close]
}

/// `with_capacity()`.
pub open spec fn capacity_part(fs: Seq<SpecField>) -> Seq<SpecOp> {
    seq![
        line("/// Create a new builder with the given capacity hint."@),
        open("pub fn with_capacity(capacity: usize) -> Self"@),
        open("Self"@),
    ] + builder_capacities(fs) + seq![SpecOp::Close, SpecOp::Close]
}

/// `finish()`.
pub open spec fn finish_part(n: Seq<char>, fs: Seq<SpecField>) -> Seq<SpecOp> {
    seq![
        line("/// Finish building and return the RecordBatch."@),
        open("pub fn finish(&mut self) -> Result<RecordBatch, ArrowError>"@),
        line("let columns: Vec<ArrayRef> = vec!["@),
        SpecOp::Indent,
    ] + finish_columns(fs) + seq![
        SpecOp::Dedent,
        line("];"@),
        line("RecordBatch::try_new("@ + n + "Schema::schema_ref(), columns)"@),
        SpecOp::Close,
    ]
}

/// `len()` and `is_empty()`.
pub open spec fn len_part(fs: Seq<SpecField>) -> Seq<SpecOp> {
    seq![
        line("/// Return the number of rows appended so far."@),
        open("pub fn len(&self) -> usize"@),
        len_body(fs),
        SpecOp::Close,
        SpecOp::Blank,
        line("/// Returns true if no rows have been appended."@),
        open("pub fn is_empty(&self) -> bool"@),
        line("self.len() == 0"@),
        SpecOp::Close,
    ]
}

/// `impl Default`.
pub open spec fn default_part(n: Seq<char>) -> Seq<SpecOp> {
    seq![
        open("impl Default for "@ + n + "Builder"@),
        open("fn default() -> Self"@),
        line("Self::new()"@),
        SpecOp::Close,
        SpecOp::Close,
    ]
}

/// What `generate_builder` writes for a schema.
pub open spec fn builder_ops(s: SpecSchema, cs: Seq<(Seq<char>, SpecCompanion)>) -> Seq<SpecOp> {
    struct_part(s.name, s.fields) + seq![SpecOp::Blank, open("impl "@ + s.name + "Builder"@)]
        + new_part(s.fields) + seq![SpecOp::Blank] + capacity_part(s.fields) + seq![SpecOp::Blank]
        + append_method_ops(s, cs) + seq![SpecOp::Blank] + finish_part(s.name, s.fields) + seq![
        SpecOp::Blank,
    ] + len_part(s.fields) + seq![SpecOp::Close, SpecOp::Blank] + default_part(s.name)
}

// ---------------------------------------------------------------------------
// Writing it
// ---------------------------------------------------------------------------

/// Determine the parameter type for append based on field type and nullability.
fn append_param_type(field: &ArrowFieldDef, companions: &Vec<(String, CompanionInfo)>) -> (r: String)
    requires
        lookup(pairs_view(companions@), field@.name) is None ==> info_ok(field@.arrow_type),
    ensures
        r@ == append_param_type_spec(field@, pairs_view(companions@)),
{
    // Check for companion struct (struct field or list<struct>)
    if let Some(info) = find_companion(companions, field.name.as_str()) {
        let type_ref = info.type_ref();
        return match &field.arrow_type {
            ArrowType::List { .. } | ArrowType::LargeList { .. } => {
                if field.nullable {
                    str3("Option<&[", type_ref.as_str(), "]>")
                } else {
                    str3("&[", type_ref.as_str(), "]")
                }
            },
            ArrowType::Struct { .. } => {
                if field.nullable {
                    str3("Option<&", type_ref.as_str(), ">")
                } else {
                    str2("&", type_ref.as_str())
                }
            },
            _ => type_ref,
        };
    }
    let info = rust_type_info(&field.arrow_type);
    if field.nullable {
        str3("Option<", info.append_type.as_str(), ">")
    } else {
        info.append_type
    }
}

/// Get the Arrow builder type name for use in field_builder::<T>() calls.
fn struct_field_builder_type(ty: &ArrowType) -> (r: String)
    requires
        info_ok(ty@),
    ensures
        r@ == type_info(ty@).builder_type,
{
    rust_type_info(ty).builder_type
}

/// The line of the `i`-th member's builder call, up to the method.
fn member_builder_exec(owner: &str, sf: &ArrowFieldDef, i: usize) -> (r: String)
    requires
        info_ok(sf@.arrow_type),
    ensures
        r@ == member_builder(owner@, sf@, i as int),
{
    let builder_type = struct_field_builder_type(&sf.arrow_type);
    let idx = usize_to_string(i);
    let mut r = str4(owner, ".field_builder::<", builder_type.as_str(), ">(");
    r.append(idx.as_str());
    r.append(").unwrap()");
    r
}

/// Emit field_builder appends, each reading `var.member`, on the builder
/// expression `owner` (a struct builder, or the values of a list builder).
fn emit_member_appends(w: &mut CodePlan, owner: &str, var: &str, sub_fields: &[ArrowFieldDef])
    requires
        members_ok(fields_view(sub_fields@), 0),
    ensures
        final(w)@ == old(w)@ + member_appends(owner@, var@, fields_view(sub_fields@), 0),
{
    let ghost fs = fields_view(sub_fields@);
    let ghost head = old(w)@;
    let mut i: usize = 0;
    while i < sub_fields.len()
        invariant
            fs == fields_view(sub_fields@),
            i <= sub_fields@.len(),
            members_ok(fs, i as int),
            head + member_appends(owner@, var@, fs, 0) == w@ + member_appends(
                owner@,
                var@,
                fs,
                i as int,
            ),
        decreases sub_fields@.len() - i,
    {
        let sf = &sub_fields[i];
        proof {
            assert(fs[i as int] == sf@);
        }
        let ghost before = w@;
        let sf_name = rust_field_ident(sf.name.as_str());
        let mut l = member_builder_exec(owner, sf, i);
        if sf.nullable {
            l.append(".append_option(");
        } else {
            l.append(".append_value(");
        }
        l.append(var);
        l.append(".");
        l.append(sf_name.as_str());
        l.append(");");
        w.line_string(l);
        proof {
            assert(before + member_appends(owner@, var@, fs, i as int) =~= w@ + member_appends(
                owner@,
                var@,
                fs,
                i + 1,
            ));
        }
        i = i + 1;
    }
    proof {
        assert(w@ + Seq::<SpecOp>::empty() =~= w@);
    }
}

/// Emit field_builder appends for a direct struct field.
fn emit_struct_field_appends(
    w: &mut CodePlan,
    builder_field: &str,
    var: &str,
    sub_fields: &[ArrowFieldDef],
)
    requires
        members_ok(fields_view(sub_fields@), 0),
    ensures
        final(w)@ == old(w)@ + member_appends(
            "self."@ + builder_field@,
            var@,
            fields_view(sub_fields@),
            0,
        ),
{
    let owner = str2("self.", builder_field);
    emit_member_appends(w, owner.as_str(), var, sub_fields);
}

/// Emit field_builder appends for a struct inside a list (accessed via .values()).
fn emit_struct_field_appends_via_list(
    w: &mut CodePlan,
    list_field: &str,
    var: &str,
    sub_fields: &[ArrowFieldDef],
)
    requires
        members_ok(fields_view(sub_fields@), 0),
    ensures
        final(w)@ == old(w)@ + member_appends(
            "self."@ + list_field@ + ".values()"@,
            var@,
            fields_view(sub_fields@),
            0,
        ),
{
    let owner = str3("self.", list_field, ".values()");
    emit_member_appends(w, owner.as_str(), var, sub_fields);
}

/// Emit field_builder null appends when the struct itself is null.
fn emit_struct_null_appends(w: &mut CodePlan, builder_field: &str, sub_fields: &[ArrowFieldDef])
    requires
        members_ok(fields_view(sub_fields@), 0),
    ensures
        final(w)@ == old(w)@ + member_nulls("self."@ + builder_field@, fields_view(sub_fields@), 0),
{
    let ghost fs = fields_view(sub_fields@);
    let ghost head = old(w)@;
    let owner = str2("self.", builder_field);
    let mut i: usize = 0;
    while i < sub_fields.len()
        invariant
            fs == fields_view(sub_fields@),
            owner@ == "self."@ + builder_field@,
            i <= sub_fields@.len(),
            members_ok(fs, i as int),
            head + member_nulls(owner@, fs, 0) == w@ + member_nulls(owner@, fs, i as int),
        decreases sub_fields@.len() - i,
    {
        let sf = &sub_fields[i];
        proof {
            assert(fs[i as int] == sf@);
        }
        let ghost before = w@;
        let mut l = member_builder_exec(owner.as_str(), sf, i);
        l.append(".append_null();");
        w.line_string(l);
        proof {
            assert(before + member_nulls(owner@, fs, i as int) =~= w@ + member_nulls(
                owner@,
                fs,
                i + 1,
            ));
        }
        i = i + 1;
    }
    proof {
        assert(w@ + Seq::<SpecOp>::empty() =~= w@);
    }
}

/// Generate typed append for a struct field using companion struct.
fn generate_struct_append(
    w: &mut CodePlan,
    field_name: &str,
    nullable: bool,
    sub_fields: &[ArrowFieldDef],
    _info: &CompanionInfo,
)
    requires
        members_ok(fields_view(sub_fields@), 0),
    ensures
        final(w)@ == old(w)@ + struct_append_ops(field_name@, nullable, fields_view(sub_fields@)),
{
    let ghost start = old(w)@;
    let ghost fs = fields_view(sub_fields@);
    let ghost owner = "self."@ + field_name@;
    let var = if nullable {
        "s"
    } else {
        field_name
    };
    if nullable {
        w.open_string(str2("match ", field_name));
        w.open("Some(s) =>");
        let ghost p1 = w@;
        emit_struct_field_appends(w, field_name, var, sub_fields);
        let ghost p2 = w@;
        w.line_string(str3("self.", field_name, ".append(true);"));
        w.close();
        w.open("None =>");
        let ghost p3 = w@;
        emit_struct_null_appends(w, field_name, sub_fields);
        let ghost p4 = w@;
        w.line_string(str3("self.", field_name, ".append(false);"));
        w.close();
        w.close();
        proof {
            reveal_strlit("s");
            assert(p2 == p1 + member_appends(owner, "s"@, fs, 0));
            assert(p4 == p3 + member_nulls(owner, fs, 0));
            assert(w@ =~= start + struct_append_ops(field_name@, nullable, fs));
        }
    } else {
        let ghost p1 = w@;
        emit_struct_field_appends(w, field_name, var, sub_fields);
        w.line_string(str3("self.", field_name, ".append(true);"));
        assert(w@ =~= start + struct_append_ops(field_name@, nullable, fs));
    }
}

/// Generate typed append for a list<struct> field using companion struct.
fn generate_list_struct_append(
    w: &mut CodePlan,
    field_name: &str,
    nullable: bool,
    sub_fields: &[ArrowFieldDef],
    _info: &CompanionInfo,
)
    requires
        members_ok(fields_view(sub_fields@), 0),
    ensures
        final(w)@ == old(w)@ + list_struct_append_ops(
            field_name@,
            nullable,
            fields_view(sub_fields@),
        ),
{
    let ghost start = old(w)@;
    let ghost fs = fields_view(sub_fields@);
    let ghost owner = "self."@ + field_name@ + ".values()"@;
    if nullable {
        w.open_string(str2("match ", field_name));
        w.open("Some(rows) =>");
        w.open("for row in rows");
        let ghost p1 = w@;
        emit_struct_field_appends_via_list(w, field_name, "row", sub_fields);
        let ghost p2 = w@;
        w.line_string(str3("self.", field_name, ".values().append(true);"));
        w.close();
        w.line_string(str3("self.", field_name, ".append(true);"));
        w.close();
        w.open("None =>");
        w.line_string(str3("self.", field_name, ".append(false);"));
        w.close();
        w.close();
        proof {
            assert(p2 == p1 + member_appends(owner, "row"@, fs, 0));
            assert(w@ =~= start + list_struct_append_ops(field_name@, nullable, fs));
        }
    } else {
        w.open_string(str2("for row in ", field_name));
        let ghost p1 = w@;
        emit_struct_field_appends_via_list(w, field_name, "row", sub_fields);
        let ghost p2 = w@;
        w.line_string(str3("self.", field_name, ".values().append(true);"));
        w.close();
        w.line_string(str3("self.", field_name, ".append(true);"));
        proof {
            assert(p2 == p1 + member_appends(owner, "row"@, fs, 0));
            assert(w@ =~= start + list_struct_append_ops(field_name@, nullable, fs));
        }
    }
}

fn generate_list_values_append(
    w: &mut CodePlan,
    field_name: &str,
    element_type: &ArrowType,
    _append_type: &str,
)
    ensures
        final(w)@ == old(w)@ + list_values_ops(field_name@, element_type@),
{
    match element_type {
        ArrowType::Utf8 | ArrowType::LargeUtf8 => {
            w.open("for v in values");
            w.line_string(str3("self.", field_name, ".values().append_value(v);"));
            w.close();
        },
        ArrowType::Binary | ArrowType::LargeBinary | ArrowType::FixedSizeBinary { .. } => {
            w.open("for v in values");
            w.line_string(str3("self.", field_name, ".values().append_value(v);"));
            w.close();
        },
        _ => {
            w.open("for v in values");
            w.line_string(str3("self.", field_name, ".values().append_value(*v);"));
            w.close();
        },
    }
    assert(w@ =~= old(w)@ + list_values_ops(field_name@, element_type@));
}

/// Generate the append logic for a single field.
fn generate_field_append(
    w: &mut CodePlan,
    field: &ArrowFieldDef,
    companions: &Vec<(String, CompanionInfo)>,
)
    requires
        info_ok(field@.arrow_type),
    ensures
        final(w)@ == old(w)@ + field_append_ops(field@, pairs_view(companions@)),
{
    let ghost start = old(w)@;
    let ghost f = field@;
    let field_name = rust_field_ident(field.name.as_str());
    // Check if this field has a companion struct
    if let Some(info) = find_companion(companions, field.name.as_str()) {
        match &field.arrow_type {
            ArrowType::Struct { fields: sub_fields } => {
                assert(f.arrow_type == SpecType::Struct { fields: fields_view(sub_fields@) });
                generate_struct_append(
                    w,
                    field_name.as_str(),
                    field.nullable,
                    sub_fields.as_slice(),
                    info,
                );
                return;
            },
            ArrowType::List { element } => {
                assert(element@.arrow_type == element.arrow_type@);
                if let ArrowType::Struct { fields: sub_fields } = &element.arrow_type {
                    assert(info_ok(element.arrow_type@));
                    assert(element.arrow_type@ == SpecType::Struct {
                        fields: fields_view(sub_fields@),
                    });
                    assert(members_ok(fields_view(sub_fields@), 0));
                    generate_list_struct_append(
                        w,
                        field_name.as_str(),
                        field.nullable,
                        sub_fields.as_slice(),
                        info,
                    );
                    return;
                }
            },
            _ => {},
        }
    }
    let ghost head = w@;
    assert(head == start);
    assert(field_append_ops(f, pairs_view(companions@)) == plain_append_ops(f));
    match &field.arrow_type {
        ArrowType::Utf8 | ArrowType::LargeUtf8 => {
            if field.nullable {
                w.open_string(str2("match ", field_name.as_str()));
                w.line_string(str3("Some(v) => self.", field_name.as_str(), ".append_value(v),"));
                w.line_string(str3("None => self.", field_name.as_str(), ".append_null(),"));
                w.close();
            } else {
                w.line_string(
                    str5("self.", field_name.as_str(), ".append_value(", field_name.as_str(), ");"),
                );
            }
        },
        ArrowType::Binary | ArrowType::LargeBinary | ArrowType::FixedSizeBinary { .. } => {
            if field.nullable {
                w.open_string(str2("match ", field_name.as_str()));
                w.line_string(str3("Some(v) => self.", field_name.as_str(), ".append_value(v),"));
                w.line_string(str3("None => self.", field_name.as_str(), ".append_null(),"));
                w.close();
            } else {
                w.line_string(
                    str5("self.", field_name.as_str(), ".append_value(", field_name.as_str(), ");"),
                );
            }
        },
        ArrowType::List { element } => {
            assert(element@.arrow_type == element.arrow_type@);
            let inner_info = rust_type_info(&element.arrow_type);
            if field.nullable {
                w.open_string(str2("match ", field_name.as_str()));
                w.open("Some(values) =>");
                let ghost p1 = w@;
                generate_list_values_append(
                    w,
                    field_name.as_str(),
                    &element.arrow_type,
                    inner_info.append_type.as_str(),
                );
                let ghost p2 = w@;
                w.line_string(str3("self.", field_name.as_str(), ".append(true);"));
                w.close();
                w.open("None =>");
                w.line_string(str3("self.", field_name.as_str(), ".append(false);"));
                w.close();
                w.close();
                assert(p2 == p1 + list_values_ops(field_name@, element@.arrow_type));
            } else {
                let ghost p1 = w@;
                generate_list_values_append(
                    w,
                    field_name.as_str(),
                    &element.arrow_type,
                    inner_info.append_type.as_str(),
                );
                let ghost p2 = w@;
                w.line_string(str3("self.", field_name.as_str(), ".append(true);"));
                assert(p2 == p1 + list_values_ops(field_name@, element@.arrow_type));
            }
        },
        _ => {
            // Scalar types
            if field.nullable {
                w.line_string(
                    str5("self.", field_name.as_str(), ".append_option(", field_name.as_str(), ");"),
                );
            } else {
                w.line_string(
                    str5("self.", field_name.as_str(), ".append_value(", field_name.as_str(), ");"),
                );
            }
        },
    }
    assert(w@ =~= start + plain_append_ops(f));
}

fn generate_append_method(
    w: &mut CodePlan,
    schema: &ArrowSchemaDef,
    companions: &Vec<(String, CompanionInfo)>,
)
    requires
        all_info_ok(schema@.fields),
    ensures
        final(w)@ == old(w)@ + append_method_ops(schema@, pairs_view(companions@)),
{
    let ghost start = old(w)@;
    let ghost fs = schema@.fields;
    let ghost cs = pairs_view(companions@);
    // Build parameter list
    let mut params: Vec<String> = Vec::new();
    let mut i: usize = 0;
    while i < schema.fields.len()
        invariant
            fs == schema@.fields,
            fs == fields_view(schema.fields@),
            cs == pairs_view(companions@),
            all_info_ok(fs),
            i <= schema.fields@.len(),
            views(params@) == params_of(fs, cs).take(i as int),
        decreases schema.fields@.len() - i,
    {
        let field = &schema.fields[i];
        proof {
            assert(fs[i as int] == field@);
            assert(info_ok(fs[i as int].arrow_type));
        }
        let field_name = rust_field_ident(field.name.as_str());
        let param_type = append_param_type(field, companions);
        let param = str3(field_name.as_str(), ": ", param_type.as_str());
        let ghost prev = params@;
        params.push(param);
        proof {
            assert(views(params@) =~= views(prev).push(param@));
            assert(param@ == params_of(fs, cs)[i as int]);
            assert(views(params@) =~= params_of(fs, cs).take(i + 1));
        }
        i = i + 1;
    }
    assert(params_of(fs, cs).take(fs.len() as int) =~= params_of(fs, cs));
    let params_str = join_strings(&params, ", ");
    w.line("/// Append a row to the builder.");
    w.open_string(str3("pub fn append(&mut self, ", params_str.as_str(), ")"));
    let ghost head = w@;
    let mut i: usize = 0;
    while i < schema.fields.len()
        invariant
            fs == schema@.fields,
            fs == fields_view(schema.fields@),
            cs == pairs_view(companions@),
            all_info_ok(fs),
            i <= schema.fields@.len(),
            head + field_appends(fs, cs, 0) == w@ + field_appends(fs, cs, i as int),
        decreases schema.fields@.len() - i,
    {
        let field = &schema.fields[i];
        proof {
            assert(fs[i as int] == field@);
            assert(info_ok(fs[i as int].arrow_type));
        }
        let ghost before = w@;
        generate_field_append(w, field, companions);
        proof {
            assert(before + field_appends(fs, cs, i as int) =~= w@ + field_appends(fs, cs, i + 1));
        }
        i = i + 1;
    }
    let ghost mid = w@;
    assert(mid + Seq::<SpecOp>::empty() =~= mid);
    w.close();
    assert(w@ =~= start + append_method_ops(schema@, cs));
}

fn write_struct_part(w: &mut CodePlan, schema: &ArrowSchemaDef)
    requires
        all_info_ok(schema@.fields),
    ensures
        final(w)@ == old(w)@ + struct_part(schema@.name, schema@.fields),
{
    let ghost fs = schema@.fields;
    let name = schema.name.as_str();
    let n = schema.fields.len();
    w.line_string(str3("/// Typed builder for ", name, " RecordBatches."));
    w.open_string(str3("pub struct ", name, "Builder"));
    let ghost p1 = w@;
    let mut i: usize = 0;
    while i < n
        invariant
            n == schema.fields@.len(),
            fs == fields_view(schema.fields@),
            all_info_ok(fs),
            i <= n,
            w@ == p1 + builder_members(fs).take(i as int),
        decreases n - i,
    {
        let field = &schema.fields[i];
        proof {
            assert(fs[i as int] == field@);
            assert(info_ok(fs[i as int].arrow_type));
        }
        let info = rust_type_info(&field.arrow_type);
        let field_name = rust_field_ident(field.name.as_str());
        w.line_string(str4(field_name.as_str(), ": ", info.builder_type.as_str(), ","));
        assert(builder_members(fs).take(i + 1) =~= builder_members(fs).take(i as int).push(
            builder_members(fs)[i as int],
        ));
        i = i + 1;
    }
    assert(builder_members(fs).take(n as int) =~= builder_members(fs));
    w.close();
    assert(w@ =~= old(w)@ + struct_part(schema@.name, fs));
}

fn write_new_part(w: &mut CodePlan, schema: &ArrowSchemaDef)
    requires
        all_info_ok(schema@.fields),
    ensures
        final(w)@ == old(w)@ + new_part(schema@.fields),
{
    let ghost fs = schema@.fields;
    let n = schema.fields.len();
    w.line("/// Create a new builder with default capacity.");
    w.open("pub fn new() -> Self");
    w.open("Self");
    let ghost p2 = w@;
    let mut i: usize = 0;
    while i < n
        invariant
            n == schema.fields@.len(),
            fs == fields_view(schema.fields@),
            all_info_ok(fs),
            i <= n,
            w@ == p2 + builder_news(fs).take(i as int),
        decreases n - i,
    {
        let field = &schema.fields[i];
        proof {
            assert(fs[i as int] == field@);
            assert(info_ok(fs[i as int].arrow_type));
        }
        let info = rust_type_info(&field.arrow_type);
        let field_name = rust_field_ident(field.name.as_str());
        w.line_string(str4(field_name.as_str(), ": ", info.builder_new.as_str(), ","));
        assert(builder_news(fs).take(i + 1) =~= builder_news(fs).take(i as int).push(
            builder_news(fs)[i as int],
        ));
        i = i + 1;
    }
    assert(builder_news(fs).take(n as int) =~= builder_news(fs));
    w.close();
    w.close();
    assert(w@ =~= old(w)@ + new_part(fs));
}

fn write_capacity_part(w: &mut CodePlan, schema: &ArrowSchemaDef)
    requires
        all_info_ok(schema@.fields),
    ensures
        final(w)@ == old(w)@ + capacity_part(schema@.fields),
{
    let ghost fs = schema@.fields;
    let n = schema.fields.len();
    w.line("/// Create a new builder with the given capacity hint.");
    w.open("pub fn with_capacity(capacity: usize) -> Self");
    w.open("Self");
    let ghost p3 = w@;
    let mut i: usize = 0;
    while i < n
        invariant
            n == schema.fields@.len(),
            fs == fields_view(schema.fields@),
            all_info_ok(fs),
            i <= n,
            w@ == p3 + builder_capacities(fs).take(i as int),
        decreases n - i,
    {
        let field = &schema.fields[i];
        proof {
            assert(fs[i as int] == field@);
            assert(info_ok(fs[i as int].arrow_type));
        }
        let info = rust_type_info(&field.arrow_type);
        let field_name = rust_field_ident(field.name.as_str());
        w.line_string(str4(field_name.as_str(), ": ", info.builder_with_capacity.as_str(), ","));
        assert(builder_capacities(fs).take(i + 1) =~= builder_capacities(fs).take(i as int).push(
            builder_capacities(fs)[i as int],
        ));
        i = i + 1;
    }
    assert(builder_capacities(fs).take(n as int) =~= builder_capacities(fs));
    w.close();
    w.close();
    assert(w@ =~= old(w)@ + capacity_part(fs));
}

fn write_finish_part(w: &mut CodePlan, schema: &ArrowSchemaDef)
    ensures
        final(w)@ == old(w)@ + finish_part(schema@.name, schema@.fields),
{
    let ghost fs = schema@.fields;
    let name = schema.name.as_str();
    let n = schema.fields.len();
    w.line("/// Finish building and return the RecordBatch.");
    w.open("pub fn finish(&mut self) -> Result<RecordBatch, ArrowError>");
    w.line("let columns: Vec<ArrayRef> = vec![");
    w.indent();
    let ghost p6 = w@;
    let mut i: usize = 0;
    while i < n
        invariant
            n == schema.fields@.len(),
            fs == fields_view(schema.fields@),
            i <= n,
            w@ == p6 + finish_columns(fs).take(i as int),
        decreases n - i,
    {
        let field = &schema.fields[i];
        proof {
            assert(fs[i as int] == field@);
        }
        let field_name = rust_field_ident(field.name.as_str());
        w.line_string(str3("Arc::new(self.", field_name.as_str(), ".finish()),"));
        assert(finish_columns(fs).take(i + 1) =~= finish_columns(fs).take(i as int).push(
            finish_columns(fs)[i as int],
        ));
        i = i + 1;
    }
    assert(finish_columns(fs).take(n as int) =~= finish_columns(fs));
    w.dedent();
    w.line("];");
    w.line_string(str3("RecordBatch::try_new(", name, "Schema::schema_ref(), columns)"));
    w.close();
    assert(w@ =~= old(w)@ + finish_part(schema@.name, fs));
}

fn write_len_part(w: &mut CodePlan, schema: &ArrowSchemaDef)
    ensures
        final(w)@ == old(w)@ + len_part(schema@.fields),
{
    let ghost fs = schema@.fields;
    w.line("/// Return the number of rows appended so far.");
    w.open("pub fn len(&self) -> usize");
    if schema.fields.len() > 0 {
        let first = &schema.fields[0];
        assert(fs[0] == first@);
        let field_name = rust_field_ident(first.name.as_str());
        w.line_string(str3("self.", field_name.as_str(), ".len()"));
    } else {
        w.line("0");
    }
    w.close();
    w.blank();
    w.line("/// Returns true if no rows have been appended.");
    w.open("pub fn is_empty(&self) -> bool");
    w.line("self.len() == 0");
    w.close();
    assert(w@ =~= old(w)@ + len_part(fs));
}

fn write_default_part(w: &mut CodePlan, name: &str)
    ensures
        final(w)@ == old(w)@ + default_part(name@),
{
    w.open_string(str3("impl Default for ", name, "Builder"));
    w.open("fn default() -> Self");
    w.line("Self::new()");
    w.close();
    w.close();
    assert(w@ =~= old(w)@ + default_part(name@));
}

/// Generate the `{Name}Builder` struct with typed `append()` and `finish()`.
pub fn generate_builder(
    w: &mut CodePlan,
    schema: &ArrowSchemaDef,
    companions: &Vec<(String, CompanionInfo)>,
)
    requires
        all_info_ok(schema@.fields),
    ensures
        final(w)@ == old(w)@ + builder_ops(schema@, pairs_view(companions@)),
{
    let ghost s = schema@;
    let ghost cs = pairs_view(companions@);
    let ghost p0 = w@;
    write_struct_part(w, schema);
    let ghost p1 = w@;
    w.blank();
    w.open_string(str3("impl ", schema.name.as_str(), "Builder"));
    let ghost p2 = w@;
    write_new_part(w, schema);
    let ghost p3 = w@;
    w.blank();
    let ghost p4 = w@;
    write_capacity_part(w, schema);
    let ghost p5 = w@;
    w.blank();
    let ghost p6 = w@;
    generate_append_method(w, schema, companions);
    let ghost p7 = w@;
    w.blank();
    let ghost p8 = w@;
    write_finish_part(w, schema);
    let ghost p9 = w@;
    w.blank();
    let ghost p10 = w@;
    write_len_part(w, schema);
    let ghost p11 = w@;
    w.close();
    w.blank();
    let ghost p12 = w@;
    write_default_part(w, schema.name.as_str());
    proof {
        let a = struct_part(s.name, s.fields) + seq![SpecOp::Blank, open("impl "@ + s.name + "Builder"@)];
        assert(p2 =~= p0 + a);
        let b = a + new_part(s.fields) + seq![SpecOp::Blank];
        assert(p4 =~= p0 + b);
        let c = b + capacity_part(s.fields) + seq![SpecOp::Blank];
        assert(p6 =~= p0 + c);
        let d = c + append_method_ops(s, cs) + seq![SpecOp::Blank];
        assert(p8 =~= p0 + d);
        let e = d + finish_part(s.name, s.fields) + seq![SpecOp::Blank];
        assert(p10 =~= p0 + e);
        let f = e + len_part(s.fields) + seq![SpecOp::Close, SpecOp::Blank];
        assert(p12 =~= p0 + f);
        assert(w@ =~= p0 + builder_ops(s, cs));
    }
}

} // verus!
