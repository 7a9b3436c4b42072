//! The `{Name}Schema` struct with `schema()` and `schema_ref()`.
use vstd::prelude::*;

use crate::codegen::plan::{CodePlan, SpecOp, line, open};
use crate::codegen::type_mapping::{exprs_ok, field_expr, field_expr_spec};
use crate::schema_def::{ArrowSchemaDef, SpecField, SpecSchema, fields_view};
use crate::text::{str2, str3};

verus! {

/// One `Field::new(..),` line per field from `k` on.
pub open spec fn field_lines(fs: Seq<SpecField>, k: int) -> Seq<SpecOp>
    decreases fs.len() - k,
{
    if k < 0 || k >= fs.len() {
        Seq::empty()
    } else {
        seq![line(field_expr_spec(fs[k]) + ","@)] + field_lines(fs, k + 1)
    }
}

/// What `generate_schema` writes for a schema.
pub open spec fn schema_ops(s: SpecSchema) -> Seq<SpecOp> {
    let n = s.name;
    seq![
        line("/// Schema definition for "@ + n + "."@),
        line("pub struct "@ + n + "Schema;"@),
        SpecOp::Blank,
        open("impl "@ + n + "Schema"@),
        line("/// Returns the Arrow schema for "@ + n + "."@),
        open("pub fn schema() -> Schema"@),
        line("Schema::new(vec!["@),
        SpecOp::Indent,
    ] + field_lines(s.fields, 0) + seq![
        SpecOp::Dedent,
        line("])"@),
        SpecOp::Close,
        SpecOp::Blank,
        line("/// Returns the Arrow schema for "@ + n + " wrapped in an Arc."@),
        open("pub fn schema_ref() -> Arc<Schema>"@),
        line("Arc::new(Self::schema())"@),
        SpecOp::Close,
        SpecOp::Close,
    ]
}

/// Generate the `{Name}Schema` struct with `schema()` and `schema_ref()` methods.
pub fn generate_schema(w: &mut CodePlan, schema: &ArrowSchemaDef)
    requires
        exprs_ok(schema@.fields, 0),
    ensures
        final(w)@ == old(w)@ + schema_ops(schema@),
{
    let ghost start = w@;
    let ghost fs = schema@.fields;
    let name = schema.name.as_str();
    w.line_string(str3("/// Schema definition for ", name, "."));
    w.line_string(str3("pub struct ", name, "Schema;"));
    w.blank();
    w.open_string(str3("impl ", name, "Schema"));
    w.line_string(str3("/// Returns the Arrow schema for ", name, "."));
    w.open("pub fn schema() -> Schema");
    w.line("Schema::new(vec![");
    w.indent();
    let ghost head = w@;
    let mut i: usize = 0;
    while i < schema.fields.len()
        invariant
            fs == schema@.fields,
            fs == fields_view(schema.fields@),
            i <= schema.fields@.len(),
            exprs_ok(fs, i as int),
            w@.len() >= head.len(),
            w@.subrange(0, head.len() as int) == head,
            w@.subrange(head.len() as int, w@.len() as int) + field_lines(fs, i as int)
                == field_lines(fs, 0),
        decreases schema.fields@.len() - i,
    {
        proof {
            assert(fs[i as int] == schema.fields@[i as int]@);
        }
        let e = field_expr(&schema.fields[i]);
        let ghost before = w@;
        w.line_string(str2(e.as_str(), ","));
        proof {
            assert(w@.subrange(0, head.len() as int) =~= head);
            assert(w@.subrange(head.len() as int, w@.len() as int) =~= before.subrange(
                head.len() as int,
                before.len() as int,
            ).push(line(e@ + ","@)));
            assert(before.subrange(head.len() as int, before.len() as int) + field_lines(
                fs,
                i as int,
            ) =~= w@.subrange(head.len() as int, w@.len() as int) + field_lines(fs, i + 1));
        }
        i = i + 1;
    }
    let ghost mid = w@;
    proof {
        assert(mid.subrange(head.len() as int, mid.len() as int) + Seq::<SpecOp>::empty()
            =~= mid.subrange(head.len() as int, mid.len() as int));
        assert(mid =~= head + field_lines(fs, 0));
    }
    w.dedent();
    w.line("])");
    w.close();
    w.blank();
    w.line_string(str3("/// Returns the Arrow schema for ", name, " wrapped in an Arc."));
    w.open("pub fn schema_ref() -> Arc<Schema>");
    w.line("Arc::new(Self::schema())");
    w.close();
    w.close();
    assert(w@ =~= start + schema_ops(schema@));
}

} // verus!
