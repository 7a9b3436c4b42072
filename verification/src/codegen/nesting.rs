//! The generated code is well nested: every generator closes each block it
//! opens and takes back each indentation it adds.
use vstd::prelude::*;

use crate::codegen::builder_gen::{
    append_method_ops, builder_capacities, builder_members, builder_news, builder_ops,
    capacity_part, default_part, field_append_ops, field_appends, finish_columns, finish_part,
    len_body, len_part, list_struct_append_ops, list_values_ops, member_appends, member_nulls,
    new_part, plain_append_ops, struct_append_ops, struct_part,
};
use crate::codegen::companion_gen::{SpecCompanion, companion_ops, companions_ops, member_lines};
use crate::codegen::plan::{
    SpecOp, lemma_runs_add, lemma_runs_flat, lemma_runs_shift, line, open, runs, well_nested,
};
use crate::codegen::reader_gen::{column_ops, columns_ops, reader_ops};
use crate::codegen::rust_file_ops;
use crate::codegen::schema_gen::{field_lines, schema_ops};
use crate::arrow_type::SpecType;
use crate::codegen::builder_gen::lookup;
use crate::codegen::companion_gen::companions_of;
use crate::codegen::plan::ident;
use crate::schema_def::{SpecField, SpecSchema};

verus! {

// ---------------------------------------------------------------------------
// Composing
// ---------------------------------------------------------------------------

/// Only lines and blank lines.
pub open spec fn flat(x: Seq<SpecOp>) -> bool {
    forall|k: int| 0 <= k < x.len() ==> (#[trigger] x[k] is Line || x[k] is Blank)
}

proof fn lemma_flat_nested(x: Seq<SpecOp>)
    requires
        flat(x),
    ensures
        well_nested(x),
{
    lemma_runs_flat(x, 0, 0);
}

proof fn lemma_cat(x: Seq<SpecOp>, y: Seq<SpecOp>)
    requires
        well_nested(x),
        well_nested(y),
    ensures
        well_nested(x + y),
{
    lemma_runs_add(x, y, 0, 0);
}

/// `pre` opens what `post` closes, around a well-nested `mid`.
proof fn lemma_wrap(pre: Seq<SpecOp>, mid: Seq<SpecOp>, post: Seq<SpecOp>, b: int, i: int)
    requires
        b >= 0,
        i >= 0,
        runs(pre, 0, 0) == Some((b, i)),
        well_nested(mid),
        runs(post, b, i) == Some((0int, 0int)),
    ensures
        well_nested(pre + mid + post),
{
    lemma_runs_shift(mid, 0, 0, b, i);
    lemma_runs_add(pre, mid, 0, 0);
    lemma_runs_add(pre + mid, post, 0, 0);
}

// ---------------------------------------------------------------------------
// Runs of lines
// ---------------------------------------------------------------------------

proof fn lemma_field_lines_flat(fs: Seq<SpecField>, k: int)
    ensures
        flat(field_lines(fs, k)),
    decreases fs.len() - k,
{
    if 0 <= k < fs.len() {
        lemma_field_lines_flat(fs, k + 1);
        let rest = field_lines(fs, k + 1);
        assert forall|j: int| 0 <= j < field_lines(fs, k).len() implies (
        #[trigger] field_lines(fs, k)[j] is Line || field_lines(fs, k)[j] is Blank) by {
            if j > 0 {
                assert(field_lines(fs, k)[j] == rest[j - 1]);
            }
        }
    }
}

proof fn lemma_member_lines_flat(fs: Seq<SpecField>, k: int)
    ensures
        flat(member_lines(fs, k)),
    decreases fs.len() - k,
{
    if 0 <= k < fs.len() {
        lemma_member_lines_flat(fs, k + 1);
        let rest = member_lines(fs, k + 1);
        assert forall|j: int| 0 <= j < member_lines(fs, k).len() implies (
        #[trigger] member_lines(fs, k)[j] is Line || member_lines(fs, k)[j] is Blank) by {
            if j > 0 {
                assert(member_lines(fs, k)[j] == rest[j - 1]);
            }
        }
    }
}

proof fn lemma_member_appends_flat(owner: Seq<char>, var: Seq<char>, fs: Seq<SpecField>, k: int)
    ensures
        flat(member_appends(owner, var, fs, k)),
    decreases fs.len() - k,
{
    if 0 <= k < fs.len() {
        lemma_member_appends_flat(owner, var, fs, k + 1);
        let all = member_appends(owner, var, fs, k);
        let rest = member_appends(owner, var, fs, k + 1);
        assert forall|j: int| 0 <= j < all.len() implies (#[trigger] all[j] is Line || all[j] is Blank) by {
            if j > 0 {
                assert(all[j] == rest[j - 1]);
            }
        }
    }
}

proof fn lemma_member_nulls_flat(owner: Seq<char>, fs: Seq<SpecField>, k: int)
    ensures
        flat(member_nulls(owner, fs, k)),
    decreases fs.len() - k,
{
    if 0 <= k < fs.len() {
        lemma_member_nulls_flat(owner, fs, k + 1);
        let all = member_nulls(owner, fs, k);
        let rest = member_nulls(owner, fs, k + 1);
        assert forall|j: int| 0 <= j < all.len() implies (#[trigger] all[j] is Line || all[j] is Blank) by {
            if j > 0 {
                assert(all[j] == rest[j - 1]);
            }
        }
    }
}

/// A run that keeps the depth, written after `x`.
proof fn lemma_then_nested(x: Seq<SpecOp>, y: Seq<SpecOp>, b: int, i: int)
    requires
        b >= 0,
        i >= 0,
        runs(x, 0, 0) == Some((b, i)),
        well_nested(y),
    ensures
        runs(x + y, 0, 0) == Some((b, i)),
{
    lemma_runs_shift(y, 0, 0, b, i);
    lemma_runs_add(x, y, 0, 0);
}

/// A run `y` written after `x`.
proof fn lemma_then(x: Seq<SpecOp>, y: Seq<SpecOp>, b: int, i: int, b2: int, i2: int)
    requires
        runs(x, 0, 0) == Some((b, i)),
        runs(y, b, i) == Some((b2, i2)),
    ensures
        runs(x + y, 0, 0) == Some((b2, i2)),
{
    lemma_runs_add(x, y, 0, 0);
}

// ---------------------------------------------------------------------------
// Each generator
// ---------------------------------------------------------------------------

/// The schema definition is well nested.
proof fn lemma_schema_nested(s: SpecSchema)
    ensures
        well_nested(schema_ops(s)),
{
    let n = s.name;
    let head = seq![
        line("/// Schema definition for "@ + n + "."@),
        line("pub struct "@ + n + "Schema;"@),
        SpecOp::Blank,
        open("impl "@ + n + "Schema"@),
        line("/// Returns the Arrow schema for "@ + n + "."@),
        open("pub fn schema() -> Schema"@),
        line("Schema::new(vec!["@),
        SpecOp::Indent,
    ];
    let tail = seq![
        SpecOp::Dedent,
        line("])"@),
        SpecOp::Close,
        SpecOp::Blank,
        line("/// Returns the Arrow schema for "@ + n + " wrapped in an Arc."@),
        open("pub fn schema_ref() -> Arc<Schema>"@),
        line("Arc::new(Self::schema())"@),
        SpecOp::Close,
        SpecOp::Close,
    ];
    let mid = field_lines(s.fields, 0);
    assert(schema_ops(s) == head + mid + tail);
    reveal_with_fuel(runs, 10);
    assert(runs(head, 0, 0) == Some((2int, 1int)));
    assert(runs(tail, 2, 1) == Some((0int, 0int)));
    lemma_field_lines_flat(s.fields, 0);
    lemma_flat_nested(mid);
    lemma_wrap(head, mid, tail, 2, 1);
}

/// A companion struct is well nested.
proof fn lemma_companion_nested(c: SpecCompanion)
    ensures
        well_nested(companion_ops(c)),
{
    let lifetime = if c.needs_lifetime {
        "<'a>"@
    } else {
        Seq::empty()
    };
    let head = seq![
        line("/// Companion struct for the `"@ + c.struct_name + "` nested type."@),
        open("pub struct "@ + c.struct_name + lifetime),
    ];
    let tail = seq![SpecOp::Close];
    let mid = member_lines(c.fields, 0);
    assert(companion_ops(c) == head + mid + tail);
    reveal_with_fuel(runs, 3);
    assert(runs(head, 0, 0) == Some((1int, 0int)));
    assert(runs(tail, 1, 0) == Some((0int, 0int)));
    lemma_member_lines_flat(c.fields, 0);
    lemma_flat_nested(mid);
    lemma_wrap(head, mid, tail, 1, 0);
}

/// The companion structs of a schema are well nested.
proof fn lemma_companions_nested(cs: Seq<(Seq<char>, SpecCompanion)>, k: int)
    ensures
        well_nested(companions_ops(cs, k)),
    decreases cs.len() - k,
{
    if 0 <= k < cs.len() {
        lemma_companion_nested(cs[k].1);
        lemma_companions_nested(cs, k + 1);
        assert(flat(seq![SpecOp::Blank]));
        lemma_flat_nested(seq![SpecOp::Blank]);
        lemma_cat(companion_ops(cs[k].1), seq![SpecOp::Blank]);
        lemma_cat(companion_ops(cs[k].1) + seq![SpecOp::Blank], companions_ops(cs, k + 1));
    } else {
        reveal_with_fuel(runs, 1);
    }
}

proof fn lemma_columns_nested(fs: Seq<SpecField>, k: int)
    ensures
        well_nested(columns_ops(fs, k)),
    decreases fs.len() - k,
{
    if 0 <= k < fs.len() {
        reveal_with_fuel(runs, 6);
        assert(well_nested(column_ops(fs[k], k)));
        lemma_columns_nested(fs, k + 1);
        lemma_cat(column_ops(fs[k], k), columns_ops(fs, k + 1));
    } else {
        reveal_with_fuel(runs, 1);
    }
}

/// The reader is well nested.
proof fn lemma_reader_nested(s: SpecSchema)
    ensures
        well_nested(reader_ops(s)),
{
    let n = s.name;
    let head = seq![
        line("/// Typed reader for "@ + n + " RecordBatches."@),
        line("///"@),
        line("/// Provides typed column accessors that return the correct Arrow array"@),
        line("/// types without requiring manual downcasting."@),
        open("pub struct "@ + n + "Reader<'a>"@),
        line("batch: &'a RecordBatch,"@),
        SpecOp::Close,
        SpecOp::Blank,
        open("impl<'a> "@ + n + "Reader<'a>"@),
        line("/// Create a reader for the given RecordBatch."@),
        line("///"@),
        line("/// Returns an error if the batch schema does not match "@ + n + "."@),
        open("pub fn try_new(batch: &'a RecordBatch) -> Result<Self, ArrowError>"@),
        line("let expected = "@ + n + "Schema::schema();"@),
        open("if batch.schema().fields() != expected.fields()"@),
        line(
            "return Err(ArrowError::SchemaError(format!(\"expected "@ + n
                + " schema, got {:?}\", batch.schema())));"@,
        ),
        SpecOp::Close,
        line("Ok(Self { batch })"@),
        SpecOp::Close,
    ];
    let tail = seq![
        SpecOp::Blank,
        line("/// Number of rows in the batch."@),
        open("pub fn num_rows(&self) -> usize"@),
        line("self.batch.num_rows()"@),
        SpecOp::Close,
        SpecOp::Blank,
        line("/// Access the underlying RecordBatch."@),
        open("pub fn batch(&self) -> &RecordBatch"@),
        line("self.batch"@),
        SpecOp::Close,
        SpecOp::Close,
    ];
    let mid = columns_ops(s.fields, 0);
    assert(reader_ops(s) == head + mid + tail);
    reveal_with_fuel(runs, 20);
    assert(runs(head, 0, 0) == Some((1int, 0int)));
    assert(runs(tail, 1, 0) == Some((0int, 0int)));
    lemma_columns_nested(s.fields, 0);
    lemma_wrap(head, mid, tail, 1, 0);
}

proof fn lemma_list_values_nested(n: Seq<char>, et: SpecType)
    ensures
        well_nested(list_values_ops(n, et)),
{
    reveal_with_fuel(runs, 4);
}

proof fn lemma_plain_nested(f: SpecField)
    ensures
        well_nested(plain_append_ops(f)),
{
    let n = ident(f.name);
    match f.arrow_type {
        SpecType::List { element } => {
            let lv = list_values_ops(n, element.arrow_type);
            lemma_list_values_nested(n, element.arrow_type);
            if f.nullable {
                let pre = seq![open("match "@ + n), open("Some(values) =>"@)];
                let post = seq![
                    line("self."@ + n + ".append(true);"@),
                    SpecOp::Close,
                    open("None =>"@),
                    line("self."@ + n + ".append(false);"@),
                    SpecOp::Close,
                    SpecOp::Close,
                ];
                assert(plain_append_ops(f) == pre + lv + post);
                reveal_with_fuel(runs, 7);
                assert(runs(pre, 0, 0) == Some((2int, 0int)));
                assert(runs(post, 2, 0) == Some((0int, 0int)));
                lemma_wrap(pre, lv, post, 2, 0);
            } else {
                let post = seq![line("self."@ + n + ".append(true);"@)];
                assert(plain_append_ops(f) == lv + post);
                assert(flat(post));
                lemma_flat_nested(post);
                lemma_cat(lv, post);
            }
        },
        _ => {
            reveal_with_fuel(runs, 5);
        },
    }
}

proof fn lemma_struct_append_nested(n: Seq<char>, nullable: bool, fs: Seq<SpecField>)
    ensures
        well_nested(struct_append_ops(n, nullable, fs)),
{
    let owner = "self."@ + n;
    let ma = member_appends(owner, if nullable {
        "s"@
    } else {
        n
    }, fs, 0);
    lemma_member_appends_flat(owner, if nullable {
        "s"@
    } else {
        n
    }, fs, 0);
    if nullable {
        let mn = member_nulls(owner, fs, 0);
        lemma_member_nulls_flat(owner, fs, 0);
        let a = seq![open("match "@ + n), open("Some(s) =>"@)];
        let b = seq![line("self."@ + n + ".append(true);"@), SpecOp::Close, open("None =>"@)];
        let c = seq![line("self."@ + n + ".append(false);"@), SpecOp::Close, SpecOp::Close];
        assert(struct_append_ops(n, nullable, fs) == a + ma + b + mn + c);
        reveal_with_fuel(runs, 4);
        assert(runs(a, 0, 0) == Some((2int, 0int)));
        lemma_runs_flat(ma, 2, 0);
        lemma_then(a, ma, 2, 0, 2, 0);
        assert(runs(b, 2, 0) == Some((2int, 0int)));
        lemma_then(a + ma, b, 2, 0, 2, 0);
        lemma_runs_flat(mn, 2, 0);
        lemma_then(a + ma + b, mn, 2, 0, 2, 0);
        assert(runs(c, 2, 0) == Some((0int, 0int)));
        lemma_then(a + ma + b + mn, c, 2, 0, 0, 0);
    } else {
        let x = struct_append_ops(n, nullable, fs);
        assert(flat(x)) by {
            assert forall|k: int| 0 <= k < x.len() implies (#[trigger] x[k] is Line || x[k] is Blank) by {
                if k < ma.len() {
                    assert(x[k] == ma[k]);
                }
            }
        }
        lemma_flat_nested(x);
    }
}

proof fn lemma_list_struct_nested(n: Seq<char>, nullable: bool, fs: Seq<SpecField>)
    ensures
        well_nested(list_struct_append_ops(n, nullable, fs)),
{
    let ma = member_appends("self."@ + n + ".values()"@, "row"@, fs, 0);
    lemma_member_appends_flat("self."@ + n + ".values()"@, "row"@, fs, 0);
    let close_row = seq![line("self."@ + n + ".values().append(true);"@), SpecOp::Close];
    let rows = ma + close_row;
    reveal_with_fuel(runs, 7);
    if nullable {
        let a = seq![open("match "@ + n), open("Some(rows) =>"@), open("for row in rows"@)];
        let c = seq![
            line("self."@ + n + ".append(true);"@),
            SpecOp::Close,
            open("None =>"@),
            line("self."@ + n + ".append(false);"@),
            SpecOp::Close,
            SpecOp::Close,
        ];
        assert(list_struct_append_ops(n, nullable, fs) == a + rows + c);
        assert(runs(a, 0, 0) == Some((3int, 0int)));
        lemma_runs_flat(ma, 3, 0);
        assert(runs(close_row, 3, 0) == Some((2int, 0int)));
        lemma_runs_add(ma, close_row, 3, 0);
        lemma_then(a, rows, 3, 0, 2, 0);
        assert(runs(c, 2, 0) == Some((0int, 0int)));
        lemma_then(a + rows, c, 2, 0, 0, 0);
    } else {
        let a = seq![open("for row in "@ + n)];
        let c = seq![line("self."@ + n + ".append(true);"@)];
        assert(list_struct_append_ops(n, nullable, fs) == a + rows + c);
        assert(runs(a, 0, 0) == Some((1int, 0int)));
        lemma_runs_flat(ma, 1, 0);
        assert(runs(close_row, 1, 0) == Some((0int, 0int)));
        lemma_runs_add(ma, close_row, 1, 0);
        lemma_then(a, rows, 1, 0, 0, 0);
        assert(runs(c, 0, 0) == Some((0int, 0int)));
        lemma_then(a + rows, c, 0, 0, 0, 0);
    }
}

proof fn lemma_field_append_nested(f: SpecField, cs: Seq<(Seq<char>, SpecCompanion)>)
    ensures
        well_nested(field_append_ops(f, cs)),
{
    let n = ident(f.name);
    lemma_plain_nested(f);
    if lookup(cs, f.name) is Some {
        match f.arrow_type {
            SpecType::Struct { fields } => {
                lemma_struct_append_nested(n, f.nullable, fields);
            },
            SpecType::List { element } => match element.arrow_type {
                SpecType::Struct { fields } => {
                    lemma_list_struct_nested(n, f.nullable, fields);
                },
                _ => {},
            },
            _ => {},
        }
    }
}

proof fn lemma_field_appends_nested(fs: Seq<SpecField>, cs: Seq<(Seq<char>, SpecCompanion)>, k: int)
    ensures
        well_nested(field_appends(fs, cs, k)),
    decreases fs.len() - k,
{
    if 0 <= k < fs.len() {
        lemma_field_append_nested(fs[k], cs);
        lemma_field_appends_nested(fs, cs, k + 1);
        lemma_cat(field_append_ops(fs[k], cs), field_appends(fs, cs, k + 1));
    } else {
        reveal_with_fuel(runs, 1);
    }
}

proof fn lemma_struct_part_nested(n: Seq<char>, fs: Seq<SpecField>)
    ensures
        well_nested(struct_part(n, fs)),
{
    reveal_with_fuel(runs, 3);
    assert(flat(builder_members(fs)));
    lemma_flat_nested(builder_members(fs));
    let sp = seq![line("/// Typed builder for "@ + n + " RecordBatches."@), open("pub struct "@ + n + "Builder"@)];
    assert(runs(sp, 0, 0) == Some((1int, 0int)));
    assert(runs(seq![SpecOp::Close], 1, 0) == Some((0int, 0int)));
    lemma_wrap(sp, builder_members(fs), seq![SpecOp::Close], 1, 0);
}

proof fn lemma_new_parts_nested(fs: Seq<SpecField>)
    ensures
        well_nested(new_part(fs)),
        well_nested(capacity_part(fs)),
{
    reveal_with_fuel(runs, 4);
    assert(flat(builder_news(fs)));
    assert(flat(builder_capacities(fs)));
    lemma_flat_nested(builder_news(fs));
    lemma_flat_nested(builder_capacities(fs));
    let np = seq![
        line("/// Create a new builder with default capacity."@),
        open("pub fn new() -> Self"@),
        open("Self"@),
    ];
    let closes = seq![SpecOp::Close, SpecOp::Close];
    assert(runs(np, 0, 0) == Some((2int, 0int)));
    assert(runs(closes, 2, 0) == Some((0int, 0int)));
    lemma_wrap(np, builder_news(fs), closes, 2, 0);
    let cp = seq![
        line("/// Create a new builder with the given capacity hint."@),
        open("pub fn with_capacity(capacity: usize) -> Self"@),
        open("Self"@),
    ];
    assert(runs(cp, 0, 0) == Some((2int, 0int)));
    lemma_wrap(cp, builder_capacities(fs), closes, 2, 0);
}

proof fn lemma_append_method_nested(s: SpecSchema, cs: Seq<(Seq<char>, SpecCompanion)>)
    ensures
        well_nested(append_method_ops(s, cs)),
{
    reveal_with_fuel(runs, 3);
    let fs = s.fields;
    let ap = seq![
        line("/// Append a row to the builder."@),
        open("pub fn append(&mut self, "@ + crate::text::join(
            crate::codegen::builder_gen::params_of(fs, cs),
            ", "@,
        ) + ")"@),
    ];
    assert(runs(ap, 0, 0) == Some((1int, 0int)));
    assert(runs(seq![SpecOp::Close], 1, 0) == Some((0int, 0int)));
    lemma_field_appends_nested(fs, cs, 0);
    lemma_wrap(ap, field_appends(fs, cs, 0), seq![SpecOp::Close], 1, 0);
    assert(append_method_ops(s, cs) == ap + field_appends(fs, cs, 0) + seq![SpecOp::Close]);
}

proof fn lemma_finish_part_nested(n: Seq<char>, fs: Seq<SpecField>)
    ensures
        well_nested(finish_part(n, fs)),
{
    reveal_with_fuel(runs, 5);
    assert(flat(finish_columns(fs)));
    lemma_flat_nested(finish_columns(fs));
    let fp = seq![
        line("/// Finish building and return the RecordBatch."@),
        open("pub fn finish(&mut self) -> Result<RecordBatch, ArrowError>"@),
        line("let columns: Vec<ArrayRef> = vec!["@),
        SpecOp::Indent,
    ];
    let ft = seq![
        SpecOp::Dedent,
        line("];"@),
        line("RecordBatch::try_new("@ + n + "Schema::schema_ref(), columns)"@),
        SpecOp::Close,
    ];
    assert(runs(fp, 0, 0) == Some((1int, 1int)));
    assert(runs(ft, 1, 1) == Some((0int, 0int)));
    lemma_wrap(fp, finish_columns(fs), ft, 1, 1);
}

proof fn lemma_len_default_nested(n: Seq<char>, fs: Seq<SpecField>)
    ensures
        well_nested(len_part(fs)),
        well_nested(default_part(n)),
{
    reveal_with_fuel(runs, 10);
    assert(len_body(fs) is Line);
}

/// The builder is well nested.
proof fn lemma_builder_nested(s: SpecSchema, cs: Seq<(Seq<char>, SpecCompanion)>)
    ensures
        well_nested(builder_ops(s, cs)),
{
    lemma_struct_part_nested(s.name, s.fields);
    lemma_new_parts_nested(s.fields);
    lemma_append_method_nested(s, cs);
    lemma_finish_part_nested(s.name, s.fields);
    lemma_len_default_nested(s.name, s.fields);
    let x1 = struct_part(s.name, s.fields);
    let o = seq![SpecOp::Blank, open("impl "@ + s.name + "Builder"@)];
    let bl = seq![SpecOp::Blank];
    let cb = seq![SpecOp::Close, SpecOp::Blank];
    reveal_with_fuel(runs, 3);
    assert(runs(o, 0, 0) == Some((1int, 0int)));
    assert(runs(bl, 1, 0) == Some((1int, 0int)));
    assert(runs(cb, 1, 0) == Some((0int, 0int)));
    lemma_then(x1, o, 0, 0, 1, 0);
    let x2 = x1 + o;
    lemma_then_nested(x2, new_part(s.fields), 1, 0);
    let x3 = x2 + new_part(s.fields);
    lemma_then(x3, bl, 1, 0, 1, 0);
    let x4 = x3 + bl;
    lemma_then_nested(x4, capacity_part(s.fields), 1, 0);
    let x5 = x4 + capacity_part(s.fields);
    lemma_then(x5, bl, 1, 0, 1, 0);
    let x6 = x5 + bl;
    lemma_then_nested(x6, append_method_ops(s, cs), 1, 0);
    let x7 = x6 + append_method_ops(s, cs);
    lemma_then(x7, bl, 1, 0, 1, 0);
    let x8 = x7 + bl;
    lemma_then_nested(x8, finish_part(s.name, s.fields), 1, 0);
    let x9 = x8 + finish_part(s.name, s.fields);
    lemma_then(x9, bl, 1, 0, 1, 0);
    let x10 = x9 + bl;
    lemma_then_nested(x10, len_part(s.fields), 1, 0);
    let x11 = x10 + len_part(s.fields);
    lemma_then(x11, cb, 1, 0, 0, 0);
    let x12 = x11 + cb;
    lemma_then_nested(x12, default_part(s.name), 0, 0);
    assert(builder_ops(s, cs) == x12 + default_part(s.name));
}

/// The Rust file generated for a schema is well nested: every block that it
/// opens is closed and every indentation it adds is taken back, and neither
/// ever goes below where the file starts.
pub proof fn law_generated_file_well_nested(s: SpecSchema)
    ensures
        well_nested(rust_file_ops(s)),
{
    let cs = companions_of(s);
    lemma_companions_nested(cs, 0);
    lemma_schema_nested(s);
    lemma_builder_nested(s, cs);
    lemma_reader_nested(s);
    let bl = seq![SpecOp::Blank];
    assert(flat(bl));
    lemma_flat_nested(bl);
    let a = companions_ops(cs, 0);
    lemma_cat(a, schema_ops(s));
    lemma_cat(a + schema_ops(s), bl);
    lemma_cat(a + schema_ops(s) + bl, builder_ops(s, cs));
    lemma_cat(a + schema_ops(s) + bl + builder_ops(s, cs), bl);
    lemma_cat(a + schema_ops(s) + bl + builder_ops(s, cs) + bl, reader_ops(s));
}

} // verus!
