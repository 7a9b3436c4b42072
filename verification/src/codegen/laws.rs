//! What the generated code says, checked against the Arrow types and the
//! other generators: the data type named for a type is that type, a field's
//! `Field` expression agrees with the mapping, borrowed members declare their
//! lifetime, null list values are recorded as null, and a reader rejects
//! exactly the batches whose fields differ.
use vstd::prelude::*;

use crate::arrow_type::{SpecType, type_display, unit_display};
use crate::codegen::companion_gen::{
    SpecCompanion, any_needs_lifetime, companion_field_type_spec, companion_for, companion_ops,
    companions_of, law_struct_fields_have_companions, needs_lifetime_spec, struct_members,
};
use crate::codegen::builder_gen::{field_append_ops, plain_append_ops};
use crate::codegen::plan::{SpecOp, ident, line, open};
use crate::codegen::reader_gen::{column_ops, columns_ops, reader_ops};
use crate::codegen::reader_gen::all_info_ok;
use crate::codegen::type_mapping::{
    bool_text, field_expr_spec, field_exprs, info_ok, type_info, unit_suffix,
};
use crate::schema_def::{SpecField, SpecSchema};
use crate::roundtrip::{is_bare, lacks};
use crate::text::{decimal, join};
use crate::type_spec::is_open;

verus! {

/// The letter `c` in lower case (ASCII letters only).
pub open spec fn lower(c: char) -> char {
    if 'A' <= c <= 'Z' {
        ((c as u32) + 32) as char
    } else {
        c
    }
}

/// `a`, a lower-case name with `_` between words, spells `b`, the same name
/// in CamelCase: `large_utf8` and `LargeUtf8`.
pub open spec fn same_name(a: Seq<char>, b: Seq<char>) -> bool
    decreases a.len(),
{
    if a.len() == 0 {
        b.len() == 0
    } else if a[0] == '_' {
        same_name(a.drop_first(), b)
    } else {
        b.len() > 0 && lower(b[0]) == a[0] && same_name(a.drop_first(), b.drop_first())
    }
}

/// The leading word of `s`: what stands before its first bracket.
pub open spec fn kind_word(s: Seq<char>) -> Seq<char>
    decreases s.len(),
{
    if s.len() == 0 || is_open(s[0]) {
        Seq::empty()
    } else {
        seq![s[0]] + kind_word(s.drop_first())
    }
}

/// No bracket opens in `s`.
pub open spec fn opens_none(s: Seq<char>) -> bool {
    forall|k: int| 0 <= k < s.len() ==> !is_open(#[trigger] s[k])
}

/// The leading word of a word followed by a bracket (or by nothing).
proof fn lemma_kind_word(w: Seq<char>, r: Seq<char>)
    requires
        opens_none(w),
        r.len() == 0 || is_open(r[0]),
    ensures
        kind_word(w + r) == w,
    decreases w.len(),
{
    if w.len() == 0 {
        assert(w + r =~= r);
    } else {
        assert((w + r).drop_first() =~= w.drop_first() + r);
        assert((w + r)[0] == w[0]);
        lemma_kind_word(w.drop_first(), r);
        assert(w =~= seq![w[0]] + w.drop_first());
    }
}

/// `dt` is `DataType::` and a name `n`, and the printed type `d` has the
/// leading word `w`, which spells `n`.
proof fn lemma_names(dt: Seq<char>, n: Seq<char>, r: Seq<char>, d: Seq<char>, w: Seq<char>, r2: Seq<char>)
    requires
        dt =~= "DataType::"@ + n + r,
        opens_none(n),
        r.len() == 0 || is_open(r[0]),
        d =~= w + r2,
        opens_none(w),
        r2.len() == 0 || is_open(r2[0]),
        same_name(w, n),
    ensures
        dt.len() >= 10,
        dt.subrange(0, 10) == "DataType::"@,
        same_name(kind_word(d), kind_word(dt.subrange(10, dt.len() as int))),
{
    reveal_strlit("DataType::");
    assert(dt.subrange(0, 10) =~= "DataType::"@);
    assert(dt.subrange(10, dt.len() as int) =~= n + r);
    lemma_kind_word(n, r);
    lemma_kind_word(w, r2);
}

/// The data type that the mapping writes for a type is that type: after
/// `DataType::` stands the name that the type's printed form starts with,
/// in CamelCase (`uint32` is `DataType::UInt32`, `list<utf8>` is
/// `DataType::List(..)`, `timestamp[us]` is `DataType::Timestamp(..)`).
#[verifier::spinoff_prover]
#[verifier::rlimit(100)]
pub proof fn law_datatype_names_type(t: SpecType)
    requires
        info_ok(t),
    ensures
        type_info(t).datatype_expr.len() >= 10,
        type_info(t).datatype_expr.subrange(0, 10) == "DataType::"@,
        same_name(
            kind_word(type_display(t)),
            kind_word(type_info(t).datatype_expr.subrange(10, type_info(t).datatype_expr.len() as int)),
        ),
{
    reveal_with_fuel(same_name, 18);
    reveal_strlit("DataType::");
    let e = Seq::<char>::empty();
    match t {
        SpecType::Null => {
            reveal_strlit("Null"); reveal_strlit("null"); reveal_strlit("DataType::Null");
            lemma_names(type_info(t).datatype_expr, "Null"@, e, type_display(t), "null"@, e);
        },
        SpecType::Boolean => {
            reveal_strlit("Boolean"); reveal_strlit("boolean"); reveal_strlit("DataType::Boolean");
            lemma_names(type_info(t).datatype_expr, "Boolean"@, e, type_display(t), "boolean"@, e);
        },
        SpecType::Int8 => {
            reveal_strlit("Int8"); reveal_strlit("int8");
            lemma_names(type_info(t).datatype_expr, "Int8"@, e, type_display(t), "int8"@, e);
        },
        SpecType::Int16 => {
            reveal_strlit("Int16"); reveal_strlit("int16");
            lemma_names(type_info(t).datatype_expr, "Int16"@, e, type_display(t), "int16"@, e);
        },
        SpecType::Int32 => {
            reveal_strlit("Int32"); reveal_strlit("int32");
            lemma_names(type_info(t).datatype_expr, "Int32"@, e, type_display(t), "int32"@, e);
        },
        SpecType::Int64 => {
            reveal_strlit("Int64"); reveal_strlit("int64");
            lemma_names(type_info(t).datatype_expr, "Int64"@, e, type_display(t), "int64"@, e);
        },
        SpecType::UInt8 => {
            reveal_strlit("UInt8"); reveal_strlit("uint8");
            lemma_names(type_info(t).datatype_expr, "UInt8"@, e, type_display(t), "uint8"@, e);
        },
        SpecType::UInt16 => {
            reveal_strlit("UInt16"); reveal_strlit("uint16");
            lemma_names(type_info(t).datatype_expr, "UInt16"@, e, type_display(t), "uint16"@, e);
        },
        SpecType::UInt32 => {
            reveal_strlit("UInt32"); reveal_strlit("uint32");
            lemma_names(type_info(t).datatype_expr, "UInt32"@, e, type_display(t), "uint32"@, e);
        },
        SpecType::UInt64 => {
            reveal_strlit("UInt64"); reveal_strlit("uint64");
            lemma_names(type_info(t).datatype_expr, "UInt64"@, e, type_display(t), "uint64"@, e);
        },
        SpecType::Float16 => {
            reveal_strlit("Float16"); reveal_strlit("float16"); reveal_strlit("DataType::Float16");
            lemma_names(type_info(t).datatype_expr, "Float16"@, e, type_display(t), "float16"@, e);
        },
        SpecType::Float32 => {
            reveal_strlit("Float32"); reveal_strlit("float32");
            lemma_names(type_info(t).datatype_expr, "Float32"@, e, type_display(t), "float32"@, e);
        },
        SpecType::Float64 => {
            reveal_strlit("Float64"); reveal_strlit("float64");
            lemma_names(type_info(t).datatype_expr, "Float64"@, e, type_display(t), "float64"@, e);
        },
        SpecType::Utf8 => {
            reveal_strlit("Utf8"); reveal_strlit("utf8"); reveal_strlit("DataType::Utf8");
            lemma_names(type_info(t).datatype_expr, "Utf8"@, e, type_display(t), "utf8"@, e);
        },
        SpecType::LargeUtf8 => {
            reveal_strlit("LargeUtf8"); reveal_strlit("large_utf8"); reveal_strlit("DataType::LargeUtf8");
            lemma_names(type_info(t).datatype_expr, "LargeUtf8"@, e, type_display(t), "large_utf8"@, e);
        },
        SpecType::Binary => {
            reveal_strlit("Binary"); reveal_strlit("binary"); reveal_strlit("DataType::Binary");
            lemma_names(type_info(t).datatype_expr, "Binary"@, e, type_display(t), "binary"@, e);
        },
        SpecType::LargeBinary => {
            reveal_strlit("LargeBinary"); reveal_strlit("large_binary"); reveal_strlit("DataType::LargeBinary");
            lemma_names(type_info(t).datatype_expr, "LargeBinary"@, e, type_display(t), "large_binary"@, e);
        },
        SpecType::Date32 => {
            reveal_strlit("Date32"); reveal_strlit("date32"); reveal_strlit("DataType::Date32");
            lemma_names(type_info(t).datatype_expr, "Date32"@, e, type_display(t), "date32"@, e);
        },
        SpecType::Date64 => {
            reveal_strlit("Date64"); reveal_strlit("date64"); reveal_strlit("DataType::Date64");
            lemma_names(type_info(t).datatype_expr, "Date64"@, e, type_display(t), "date64"@, e);
        },
        _ => {
            lemma_datatype_names_param(t);
        },
    }
}

/// Every list element in `t`, at any depth, is named `item`, as the type
/// parser names them.
pub open spec fn items_named(t: SpecType) -> bool
    decreases t,
{
    match t {
        SpecType::List { element } => element.name == "item"@ && items_named(element.arrow_type),
        _ => true,
    }
}

/// The `Field` expression of a field describes the field's own type: it is
/// `Field::new("<name>", <data type>, <nullable>)` with the data type that
/// the mapping writes for that type (a `list<utf8>` field gets
/// `DataType::List(..)`, as its `ListBuilder` does).
pub proof fn law_field_expr_uses_datatype(f: SpecField)
    requires
        info_ok(f.arrow_type),
        items_named(f.arrow_type),
    ensures
        field_expr_spec(f) == "Field::new(\""@ + f.name + "\", "@ + type_info(f.arrow_type).datatype_expr
            + ", "@ + bool_text(f.nullable) + ")"@,
    decreases f,
{
    reveal_strlit("Field::new(\"");
    reveal_strlit("\", ");
    reveal_strlit(", ");
    reveal_strlit(")");
    match f.arrow_type {
        SpecType::List { element } => {
            law_field_expr_uses_datatype(*element);
            reveal_strlit("item");
            reveal_strlit("DataType::List(Arc::new(");
            reveal_strlit(")), ");
            reveal_strlit("DataType::List(Arc::new(Field::new(\"item\", ");
            reveal_strlit(")))");
            let head = "Field::new(\""@ + f.name + "\", "@;
            let inner = field_expr_spec(*element);
            let nb = bool_text(f.nullable);
            assert(head + "DataType::List(Arc::new("@ + inner + ")), "@ + nb + ")"@ =~= "Field::new(\""@
                + f.name + "\", "@ + type_info(f.arrow_type).datatype_expr + ", "@ + nb + ")"@);
        },
        SpecType::Struct { fields } => {
            reveal_strlit("DataType::Struct(Fields::from(vec![");
            reveal_strlit("])), ");
            reveal_strlit("]))");
            let head = "Field::new(\""@ + f.name + "\", "@;
            let nb = bool_text(f.nullable);
            let exprs = join(field_exprs(fields, 0), ", "@);
            assert(head + "DataType::Struct(Fields::from(vec!["@ + exprs + "])), "@ + nb + ")"@
                =~= "Field::new(\""@ + f.name + "\", "@ + type_info(f.arrow_type).datatype_expr + ", "@
                + nb + ")"@);
        },
        _ => {},
    }
}

/// `s` mentions the lifetime `'a`.
pub open spec fn mentions_lifetime(s: Seq<char>) -> bool {
    exists|i: int| 0 <= i && i + 1 < s.len() && s[i] == '\'' && #[trigger] s[i + 1] == 'a'
}

/// The Rust type that a value is appended as holds no lifetime.
proof fn lemma_append_type_plain(t: SpecType)
    requires
        info_ok(t),
    ensures
        lacks(type_info(t).append_type, '\''),
    decreases t,
{
    reveal_strlit("()");
    reveal_strlit("bool");
    reveal_strlit("i8");
    reveal_strlit("i16");
    reveal_strlit("i32");
    reveal_strlit("i64");
    reveal_strlit("u8");
    reveal_strlit("u16");
    reveal_strlit("u32");
    reveal_strlit("u64");
    reveal_strlit("half::f16");
    reveal_strlit("f32");
    reveal_strlit("f64");
    reveal_strlit("&str");
    reveal_strlit("&[u8]");
    reveal_strlit("i128");
    reveal_strlit("i256");
    reveal_strlit("/* struct */");
    match t {
        SpecType::List { element } => {
            lemma_append_type_plain(element.arrow_type);
            reveal_strlit("&[");
            reveal_strlit("]");
            let a = type_info(element.arrow_type).append_type;
            let l = "&["@ + a + "]"@;
            assert forall|k: int| 0 <= k < l.len() implies l[k] != '\'' by {
                if 2 <= k < l.len() - 1 {
                    assert(l[k] == a[k - 2]);
                }
            }
        },
        _ => {},
    }
}

/// A companion member's Rust type mentions `'a` only for a member whose
/// values borrow; for a member that is neither a list nor a struct, exactly
/// then (strings and binaries are written `&'a str` and `&'a [u8]`).
pub proof fn law_member_lifetime(f: SpecField)
    requires
        info_ok(f.arrow_type),
    ensures
        mentions_lifetime(companion_field_type_spec(f)) ==> needs_lifetime_spec(f.arrow_type),
        !(f.arrow_type is List) && !(f.arrow_type is Struct) ==> (mentions_lifetime(
            companion_field_type_spec(f),
        ) <==> needs_lifetime_spec(f.arrow_type)),
{
    reveal_strlit("&'a str");
    reveal_strlit("&'a [u8]");
    reveal_strlit("Option<");
    reveal_strlit(">");
    let ty = companion_field_type_spec(f);
    match f.arrow_type {
        SpecType::Utf8 | SpecType::LargeUtf8 | SpecType::Binary | SpecType::LargeBinary
        | SpecType::FixedSizeBinary { .. } => {
            let base = if f.arrow_type is Utf8 || f.arrow_type is LargeUtf8 {
                "&'a str"@
            } else {
                "&'a [u8]"@
            };
            let at: int = if f.nullable {
                8
            } else {
                1
            };
            if f.nullable {
                assert(ty == "Option<"@ + base + ">"@);
                assert(ty[at + 1] == base[2]);
            }
            assert(ty[at] == '\'' && ty[at + 1] == 'a');
        },
        _ => {
            lemma_append_type_plain(f.arrow_type);
            let base = type_info(f.arrow_type).append_type;
            assert forall|k: int| 0 <= k < ty.len() implies ty[k] != '\'' by {
                if f.nullable {
                    if 7 <= k < ty.len() - 1 {
                        assert(ty[k] == base[k - 7]);
                    }
                } else {
                    assert(ty[k] == base[k]);
                }
            }
        },
    }
}

/// Some member from `k` on borrows, so the members need a lifetime.
proof fn lemma_any_needs(fs: Seq<SpecField>, k: int, j: int)
    requires
        0 <= k <= j < fs.len(),
        needs_lifetime_spec(fs[j].arrow_type),
    ensures
        any_needs_lifetime(fs, k),
    decreases j - k,
{
    if k < j {
        lemma_any_needs(fs, k + 1, j);
    }
}

/// The companion of a struct-typed field declares the lifetime `'a` that a
/// member's Rust type mentions: a struct with a `binary` member is written
/// `pub struct <Name><'a>`.
pub proof fn law_companion_declares_lifetime(s: SpecSchema, i: int, k: int)
    requires
        0 <= i < s.fields.len(),
        struct_members(s.fields[i].arrow_type) is Some,
        all_info_ok(struct_members(s.fields[i].arrow_type)->0),
        0 <= k < struct_members(s.fields[i].arrow_type)->0.len(),
        mentions_lifetime(
            companion_field_type_spec(struct_members(s.fields[i].arrow_type)->0[k]),
        ),
    ensures
        exists|c: (Seq<char>, SpecCompanion)|
            #![trigger companions_of(s).contains(c)]
            companions_of(s).contains(c) && c.0 == s.fields[i].name && c.1.fields == struct_members(
                s.fields[i].arrow_type,
            )->0 && c.1.needs_lifetime && companion_ops(c.1)[1] == open(
                "pub struct "@ + c.1.struct_name + "<'a>"@,
            ),
{
    let fs = struct_members(s.fields[i].arrow_type)->0;
    law_struct_fields_have_companions(s, i);
    law_member_lifetime(fs[k]);
    lemma_any_needs(fs, 0, k);
    let c = companion_for(s.name, s.fields[i].name, fs);
    assert(companions_of(s).contains(c));
}

/// `s` begins with `p`.
pub open spec fn starts_with(s: Seq<char>, p: Seq<char>) -> bool {
    p.len() <= s.len() && s.subrange(0, p.len() as int) == p
}

/// Scanning the operations back from `j`, with `depth` blocks closed since,
/// the header of the first block still open.
pub open spec fn open_header_from(ops: Seq<SpecOp>, j: int, depth: int) -> Option<Seq<char>>
    decreases j + 1,
{
    if j < 0 || j >= ops.len() {
        None
    } else {
        match ops[j] {
            SpecOp::Open(h) => if depth == 0 {
                Some(h)
            } else {
                open_header_from(ops, j - 1, depth - 1)
            },
            SpecOp::Close => open_header_from(ops, j - 1, depth + 1),
            _ => open_header_from(ops, j - 1, depth),
        }
    }
}

/// The header of the block in which the operation at `i` stands.
pub open spec fn block_of(ops: Seq<SpecOp>, i: int) -> Option<Seq<char>> {
    open_header_from(ops, i - 1, 0)
}

/// The reader accepts a batch exactly when its fields are the schema's:
/// `try_new` returns its error inside the block guarded by
/// `if batch.schema().fields() != expected.fields()`, and returns
/// `Ok(Self { batch })` in its own body, after that block.
pub proof fn law_reader_rejects_differing_fields(s: SpecSchema)
    ensures
        ({
            let ops = reader_ops(s);
            &&& exists|i: int|
                0 <= i < ops.len() && #[trigger] ops[i] is Line && starts_with(ops[i]->Line_0, "return Err("@)
                    && block_of(ops, i) == Some(
                    "if batch.schema().fields() != expected.fields()"@,
                )
            &&& exists|j: int|
                0 <= j < ops.len() && #[trigger] ops[j] == line("Ok(Self { batch })"@) && block_of(
                    ops,
                    j,
                ) == Some("pub fn try_new(batch: &'a RecordBatch) -> Result<Self, ArrowError>"@)
        }),
{
    reveal_with_fuel(open_header_from, 6);
    let ops = reader_ops(s);
    let n = s.name;
    reveal_strlit("return Err(ArrowError::SchemaError(format!(\"expected ");
    reveal_strlit("return Err(");
    let l = "return Err(ArrowError::SchemaError(format!(\"expected "@ + n
        + " schema, got {:?}\", batch.schema())));"@;
    assert(ops[15] == line(l));
    assert(l.subrange(0, 11) =~= "return Err("@);
    assert(block_of(ops, 15) == Some("if batch.schema().fields() != expected.fields()"@));
    assert(ops[17] == line("Ok(Self { batch })"@));
    assert(block_of(ops, 17) == Some(
        "pub fn try_new(batch: &'a RecordBatch) -> Result<Self, ArrowError>"@,
    ));
}

/// The accessors of the columns from `j` on, seen from column `k`.
proof fn lemma_columns_at(fs: Seq<SpecField>, j: int, k: int)
    requires
        0 <= j <= k < fs.len(),
    ensures
        columns_ops(fs, j).len() >= 5 * (k - j) + 5,
        forall|m: int| 0 <= m < 5 ==> columns_ops(fs, j)[5 * (k - j) + m] == #[trigger] column_ops(fs[k], k)[m],
    decreases k - j,
{
    let c = column_ops(fs[j], j);
    assert(c.len() == 5);
    assert(columns_ops(fs, j) == c + columns_ops(fs, j + 1));
    if j < k {
        lemma_columns_at(fs, j + 1, k);
    }
}

/// The reader's accessor named after a field returns that field's column:
/// for the field at position `k`, `pub fn <name>(&self) -> &<array type>`
/// reads `self.batch.column(k)`.
pub proof fn law_reader_column_order(s: SpecSchema, k: int)
    requires
        0 <= k < s.fields.len(),
    ensures
        ({
            let ops = reader_ops(s);
            let f = s.fields[k];
            exists|i: int|
                0 <= i && i + 1 < ops.len() && #[trigger] ops[i] == open(
                    "pub fn "@ + ident(f.name) + "(&self) -> &"@ + type_info(f.arrow_type).array_type,
                ) && ops[i + 1] is Line && starts_with(
                    ops[i + 1]->Line_0,
                    "self.batch.column("@ + decimal(k) + ")."@,
                )
        }),
{
    let ops = reader_ops(s);
    let f = s.fields[k];
    lemma_columns_at(s.fields, 0, k);
    let cols = columns_ops(s.fields, 0);
    let c = column_ops(f, k);
    let i = 19 + 5 * k + 2;
    assert(ops[i] == cols[5 * k + 2]);
    assert(ops[i + 1] == cols[5 * k + 3]);
    assert(c[2] == cols[5 * k + 2]);
    assert(c[3] == cols[5 * k + 3]);
    let l = "self.batch.column("@ + decimal(k) + ")."@ + type_info(f.arrow_type).accessor_method
        + "()"@;
    assert(c[3] == line(l));
    assert(l.subrange(0, ("self.batch.column("@ + decimal(k) + ")."@).len() as int) =~= "self.batch.column("@
        + decimal(k) + ")."@);
}

/// For a nullable list field, the generated `append` records the list slot
/// as null (`append(false)`) when the argument is `None`, and as a valid
/// list (`append(true)`) only when it is `Some(..)`: the line
/// `self.<name>.append(false);` is written, and only in the `None =>` arm,
/// and every `self.<name>.append(true);` stands in a `Some(..)` arm.
pub proof fn law_nullable_list_append(f: SpecField, cs: Seq<(Seq<char>, SpecCompanion)>)
    requires
        f.arrow_type is List,
        f.nullable,
        !(f.arrow_type->List_element.arrow_type is Struct),
    ensures
        ({
            let ops = field_append_ops(f, cs);
            let n = ident(f.name);
            let null = line("self."@ + n + ".append(false);"@);
            let valid = line("self."@ + n + ".append(true);"@);
            &&& exists|i: int| 0 <= i < ops.len() && #[trigger] ops[i] == null
            &&& forall|i: int|
                0 <= i < ops.len() && #[trigger] ops[i] == null ==> block_of(ops, i) == Some(
                    "None =>"@,
                )
            &&& exists|i: int| 0 <= i < ops.len() && #[trigger] ops[i] == valid
            &&& forall|i: int|
                0 <= i < ops.len() && #[trigger] ops[i] == valid ==> block_of(ops, i) is Some
                    && starts_with(block_of(ops, i)->0, "Some("@)
        }),
{
    reveal_with_fuel(open_header_from, 6);
    let ops = field_append_ops(f, cs);
    let n = ident(f.name);
    let element = f.arrow_type->List_element;
    reveal_strlit("self.");
    reveal_strlit(".append(false);");
    reveal_strlit(".append(true);");
    reveal_strlit(".values().append_value(v);");
    reveal_strlit(".values().append_value(*v);");
    reveal_strlit("Some(values) =>");
    reveal_strlit("Some(");
    let null = line("self."@ + n + ".append(false);"@);
    let valid = line("self."@ + n + ".append(true);"@);
    assert(ops == plain_append_ops(f));
    assert(ops.len() == 11);
    assert(ops[8] == null);
    assert(ops[5] == valid);
    assert("Some(values) =>"@.subrange(0, 5) =~= "Some("@);
    assert(block_of(ops, 5) == Some("Some(values) =>"@));
    assert(block_of(ops, 8) == Some("None =>"@));
    assert forall|i: int| 0 <= i < ops.len() && #[trigger] ops[i] == null implies block_of(ops, i)
        == Some("None =>"@) by {
        if i == 3 {
            assert(ops[3]->Line_0.len() != null->Line_0.len());
        } else if i == 5 {
            assert(valid->Line_0.len() != null->Line_0.len());
        }
    }
    assert forall|i: int| 0 <= i < ops.len() && #[trigger] ops[i] == valid implies block_of(ops, i) is Some
        && starts_with(block_of(ops, i)->0, "Some("@) by {
        if i == 3 {
            assert(ops[3]->Line_0.len() != valid->Line_0.len());
        } else if i == 8 {
            assert(valid->Line_0.len() != null->Line_0.len());
        }
    }
}

/// For a list field that is not nullable, the generated `append` records
/// every list as valid: `self.<name>.append(true);` is written, and
/// `self.<name>.append(false);` never.
pub proof fn law_required_list_append(f: SpecField, cs: Seq<(Seq<char>, SpecCompanion)>)
    requires
        f.arrow_type is List,
        !f.nullable,
        !(f.arrow_type->List_element.arrow_type is Struct),
    ensures
        ({
            let ops = field_append_ops(f, cs);
            let n = ident(f.name);
            &&& exists|i: int|
                0 <= i < ops.len() && #[trigger] ops[i] == line("self."@ + n + ".append(true);"@)
            &&& forall|i: int|
                0 <= i < ops.len() ==> #[trigger] ops[i] != line("self."@ + n + ".append(false);"@)
        }),
{
    let ops = field_append_ops(f, cs);
    let n = ident(f.name);
    reveal_strlit("self.");
    reveal_strlit(".append(false);");
    reveal_strlit(".append(true);");
    reveal_strlit(".values().append_value(v);");
    reveal_strlit(".values().append_value(*v);");
    let null = line("self."@ + n + ".append(false);"@);
    assert(ops == plain_append_ops(f));
    assert(ops.len() == 4);
    assert(ops[3] == line("self."@ + n + ".append(true);"@));
    assert forall|i: int| 0 <= i < ops.len() implies #[trigger] ops[i] != null by {
        if i == 1 || i == 3 {
            assert(ops[i]->Line_0.len() != null->Line_0.len());
        }
    }
}

/// The primitive numbers.
pub open spec fn is_number(t: SpecType) -> bool {
    ||| t is Int8
    ||| t is Int16
    ||| t is Int32
    ||| t is Int64
    ||| t is UInt8
    ||| t is UInt16
    ||| t is UInt32
    ||| t is UInt64
    ||| t is Float32
    ||| t is Float64
}

pub open spec fn is_digit(c: char) -> bool {
    '0' <= c <= '9'
}

/// A primitive number is appended as the Rust number of the same kind and
/// width, and goes into the builder, comes out of the array and is
/// described by the data type of its own name: the Rust type is the first
/// letter of the printed type and its width in digits, and the builder,
/// array and data type spell the printed type (`uint32` is appended as
/// `u32` into a `UInt32Builder`, read as a `UInt32Array` and described as
/// `DataType::UInt32`).
#[verifier::spinoff_prover]
#[verifier::rlimit(100)]
pub proof fn law_number_mapping(t: SpecType)
    requires
        is_number(t),
    ensures
        ({
            let d = type_display(t);
            let info = type_info(t);
            let a = info.append_type;
            let n = info.datatype_expr.subrange(10, info.datatype_expr.len() as int);
            &&& 2 <= a.len() < d.len()
            &&& a[0] == d[0]
            &&& forall|k: int| 1 <= k < a.len() ==> is_digit(#[trigger] a[k])
            &&& a.drop_first() == d.subrange(d.len() - (a.len() - 1), d.len() as int)
            &&& !is_digit(d[d.len() - a.len()])
            &&& info.datatype_expr == "DataType::"@ + n
            &&& same_name(d, n)
            &&& info.builder_type == n + "Builder"@
            &&& info.array_type == n + "Array"@
        }),
{
    reveal_with_fuel(same_name, 8);
    reveal_strlit("DataType::");
    reveal_strlit("Builder");
    reveal_strlit("Array");
    match t {
        SpecType::Int8 => {
            reveal_strlit("Int8");
            reveal_strlit("i8");
            reveal_strlit("int8");
            assert("DataType::"@.add("Int8"@).subrange(10, 14) =~= "Int8"@);
            assert("i8"@.drop_first() =~= "int8"@.subrange(3, 4));
        },
        SpecType::Int16 => {
            reveal_strlit("Int16");
            reveal_strlit("i16");
            reveal_strlit("int16");
            assert("DataType::"@.add("Int16"@).subrange(10, 15) =~= "Int16"@);
            assert("i16"@.drop_first() =~= "int16"@.subrange(3, 5));
        },
        SpecType::Int32 => {
            reveal_strlit("Int32");
            reveal_strlit("i32");
            reveal_strlit("int32");
            assert("DataType::"@.add("Int32"@).subrange(10, 15) =~= "Int32"@);
            assert("i32"@.drop_first() =~= "int32"@.subrange(3, 5));
        },
        SpecType::Int64 => {
            reveal_strlit("Int64");
            reveal_strlit("i64");
            reveal_strlit("int64");
            assert("DataType::"@.add("Int64"@).subrange(10, 15) =~= "Int64"@);
            assert("i64"@.drop_first() =~= "int64"@.subrange(3, 5));
        },
        SpecType::UInt8 => {
            reveal_strlit("UInt8");
            reveal_strlit("u8");
            reveal_strlit("uint8");
            assert("DataType::"@.add("UInt8"@).subrange(10, 15) =~= "UInt8"@);
            assert("u8"@.drop_first() =~= "uint8"@.subrange(4, 5));
        },
        SpecType::UInt16 => {
            reveal_strlit("UInt16");
            reveal_strlit("u16");
            reveal_strlit("uint16");
            assert("DataType::"@.add("UInt16"@).subrange(10, 16) =~= "UInt16"@);
            assert("u16"@.drop_first() =~= "uint16"@.subrange(4, 6));
        },
        SpecType::UInt32 => {
            reveal_strlit("UInt32");
            reveal_strlit("u32");
            reveal_strlit("uint32");
            assert("DataType::"@.add("UInt32"@).subrange(10, 16) =~= "UInt32"@);
            assert("u32"@.drop_first() =~= "uint32"@.subrange(4, 6));
        },
        SpecType::UInt64 => {
            reveal_strlit("UInt64");
            reveal_strlit("u64");
            reveal_strlit("uint64");
            assert("DataType::"@.add("UInt64"@).subrange(10, 16) =~= "UInt64"@);
            assert("u64"@.drop_first() =~= "uint64"@.subrange(4, 6));
        },
        SpecType::Float32 => {
            reveal_strlit("Float32");
            reveal_strlit("f32");
            reveal_strlit("float32");
            assert("DataType::"@.add("Float32"@).subrange(10, 17) =~= "Float32"@);
            assert("f32"@.drop_first() =~= "float32"@.subrange(5, 7));
        },
        SpecType::Float64 => {
            reveal_strlit("Float64");
            reveal_strlit("f64");
            reveal_strlit("float64");
            assert("DataType::"@.add("Float64"@).subrange(10, 17) =~= "Float64"@);
            assert("f64"@.drop_first() =~= "float64"@.subrange(5, 7));
        },
        _ => {},
    }
}

/// `law_datatype_names_type` for the types with parameters.
proof fn lemma_datatype_names_param(t: SpecType)
    requires
        info_ok(t),
        !is_bare(t),
    ensures
        type_info(t).datatype_expr.len() >= 10,
        type_info(t).datatype_expr.subrange(0, 10) == "DataType::"@,
        same_name(
            kind_word(type_display(t)),
            kind_word(type_info(t).datatype_expr.subrange(10, type_info(t).datatype_expr.len() as int)),
        ),
{
    if t is Time32 || t is Time64 || t is Duration || t is Timestamp {
        lemma_datatype_names_units(t);
    } else if t is FixedSizeBinary || t is Decimal128 || t is Decimal256 {
        lemma_datatype_names_numbers(t);
    } else {
        lemma_datatype_names_nested(t);
    }
}

/// `law_datatype_names_type` for the time types.
#[verifier::spinoff_prover]
#[verifier::rlimit(100)]
proof fn lemma_datatype_names_units(t: SpecType)
    requires
        info_ok(t),
        t is Time32 || t is Time64 || t is Duration || t is Timestamp,
    ensures
        type_info(t).datatype_expr.len() >= 10,
        type_info(t).datatype_expr.subrange(0, 10) == "DataType::"@,
        same_name(
            kind_word(type_display(t)),
            kind_word(type_info(t).datatype_expr.subrange(10, type_info(t).datatype_expr.len() as int)),
        ),
{
    reveal_with_fuel(same_name, 18);
    reveal_strlit("DataType::");
    reveal_strlit("(");
    reveal_strlit("[");
    reveal_strlit("<");
    reveal_strlit("]");
    reveal_strlit(")");
    match t {
        SpecType::Time32 { unit } => {
            reveal_strlit("Time32");
            reveal_strlit("time32");
            reveal_strlit("(TimeUnit::");
            reveal_strlit("time32[");
            lemma_names(
                type_info(t).datatype_expr,
                "Time32"@,
                "(TimeUnit::"@ + unit_suffix(unit) + ")"@,
                type_display(t),
                "time32"@,
                "["@ + unit_display(unit) + "]"@,
            );
        },
        SpecType::Time64 { unit } => {
            reveal_strlit("Time64");
            reveal_strlit("time64");
            reveal_strlit("(TimeUnit::");
            reveal_strlit("time64[");
            lemma_names(
                type_info(t).datatype_expr,
                "Time64"@,
                "(TimeUnit::"@ + unit_suffix(unit) + ")"@,
                type_display(t),
                "time64"@,
                "["@ + unit_display(unit) + "]"@,
            );
        },
        SpecType::Duration { unit } => {
            reveal_strlit("Duration");
            reveal_strlit("duration");
            reveal_strlit("(TimeUnit::");
            reveal_strlit("duration[");
            lemma_names(
                type_info(t).datatype_expr,
                "Duration"@,
                "(TimeUnit::"@ + unit_suffix(unit) + ")"@,
                type_display(t),
                "duration"@,
                "["@ + unit_display(unit) + "]"@,
            );
        },
        SpecType::Timestamp { unit, timezone } => {
            reveal_strlit("Timestamp");
            reveal_strlit("timestamp");
            reveal_strlit("(TimeUnit::");
            reveal_strlit("DataType::Timestamp(TimeUnit::");
            reveal_strlit("timestamp[");
            reveal_strlit(", ");
            let tz_expr = match timezone {
                Some(tz) => "Some(Arc::from(\""@ + tz + "\"))"@,
                None => "None"@,
            };
            let r2 = match timezone {
                None => "["@ + unit_display(unit) + "]"@,
                Some(tz) => "["@ + unit_display(unit) + ", "@ + tz + "]"@,
            };
            lemma_names(
                type_info(t).datatype_expr,
                "Timestamp"@,
                "(TimeUnit::"@ + unit_suffix(unit) + ", "@ + tz_expr + ")"@,
                type_display(t),
                "timestamp"@,
                r2,
            );
        },
        _ => {},
    }
}

/// `law_datatype_names_type` for the types with numbers.
#[verifier::spinoff_prover]
#[verifier::rlimit(100)]
proof fn lemma_datatype_names_numbers(t: SpecType)
    requires
        info_ok(t),
        t is FixedSizeBinary || t is Decimal128 || t is Decimal256,
    ensures
        type_info(t).datatype_expr.len() >= 10,
        type_info(t).datatype_expr.subrange(0, 10) == "DataType::"@,
        same_name(
            kind_word(type_display(t)),
            kind_word(type_info(t).datatype_expr.subrange(10, type_info(t).datatype_expr.len() as int)),
        ),
{
    reveal_with_fuel(same_name, 18);
    reveal_strlit("DataType::");
    reveal_strlit("(");
    reveal_strlit("[");
    reveal_strlit("<");
    reveal_strlit("]");
    reveal_strlit(")");
    match t {
        SpecType::FixedSizeBinary { byte_width } => {
            reveal_strlit("FixedSizeBinary");
            reveal_strlit("fixed_size_binary");
            reveal_strlit("DataType::FixedSizeBinary(");
            reveal_strlit("fixed_size_binary(");
            let w = decimal(byte_width as int);
            lemma_names(
                type_info(t).datatype_expr,
                "FixedSizeBinary"@,
                "("@ + w + ")"@,
                type_display(t),
                "fixed_size_binary"@,
                "("@ + w + ")"@,
            );
        },
        SpecType::Decimal128 { precision, scale } => {
            reveal_strlit("Decimal128");
            reveal_strlit("decimal128");
            reveal_strlit("decimal128(");
            reveal_strlit(", ");
            let ps = decimal(precision as int) + ", "@ + decimal(scale as int);
            lemma_names(
                type_info(t).datatype_expr,
                "Decimal128"@,
                "("@ + ps + ")"@,
                type_display(t),
                "decimal128"@,
                "("@ + ps + ")"@,
            );
        },
        SpecType::Decimal256 { precision, scale } => {
            reveal_strlit("Decimal256");
            reveal_strlit("decimal256");
            reveal_strlit("decimal256(");
            reveal_strlit(", ");
            let ps = decimal(precision as int) + ", "@ + decimal(scale as int);
            lemma_names(
                type_info(t).datatype_expr,
                "Decimal256"@,
                "("@ + ps + ")"@,
                type_display(t),
                "decimal256"@,
                "("@ + ps + ")"@,
            );
        },
        _ => {},
    }
}

/// `law_datatype_names_type` for the lists and structs.
#[verifier::spinoff_prover]
#[verifier::rlimit(100)]
proof fn lemma_datatype_names_nested(t: SpecType)
    requires
        info_ok(t),
        t is List || t is Struct,
    ensures
        type_info(t).datatype_expr.len() >= 10,
        type_info(t).datatype_expr.subrange(0, 10) == "DataType::"@,
        same_name(
            kind_word(type_display(t)),
            kind_word(type_info(t).datatype_expr.subrange(10, type_info(t).datatype_expr.len() as int)),
        ),
{
    reveal_with_fuel(same_name, 18);
    reveal_strlit("DataType::");
    reveal_strlit("(");
    reveal_strlit("[");
    reveal_strlit("<");
    reveal_strlit("]");
    reveal_strlit(")");
    match t {
        SpecType::List { element } => {
            reveal_strlit("List");
            reveal_strlit("list");
            reveal_strlit("list<");
            reveal_strlit(">");
            reveal_strlit("DataType::List(Arc::new(Field::new(\"item\", ");
            reveal_strlit("(Arc::new(Field::new(\"item\", ");
            reveal_strlit(", ");
            reveal_strlit(")))");
            let inner = type_info(element.arrow_type);
            lemma_names(
                type_info(t).datatype_expr,
                "List"@,
                "(Arc::new(Field::new(\"item\", "@ + inner.datatype_expr + ", "@ + bool_text(
                    element.nullable,
                ) + ")))"@,
                type_display(t),
                "list"@,
                "<"@ + type_display(element.arrow_type) + ">"@,
            );
        },
        SpecType::Struct { fields } => {
            reveal_strlit("Struct");
            reveal_strlit("struct");
            reveal_strlit("DataType::Struct(Fields::from(vec![");
            reveal_strlit("(Fields::from(vec![");
            reveal_strlit("]))");
            let exprs = join(field_exprs(fields, 0), ", "@);
            lemma_names(
                type_info(t).datatype_expr,
                "Struct"@,
                "(Fields::from(vec!["@ + exprs + "]))"@,
                type_display(t),
                "struct"@,
                Seq::empty(),
            );
        },
        _ => {},
    }
}

} // verus!
