//! The `{Name}Reader<'a>` struct with typed column accessors.
use vstd::prelude::*;

use crate::codegen::plan::{CodePlan, SpecOp, ident, line, open, rust_field_ident};
use crate::codegen::type_mapping::{info_ok, rust_type_info, type_info};
use crate::schema_def::{ArrowSchemaDef, SpecField, SpecSchema, fields_view};
use crate::text::{decimal, str3, str4, usize_to_string};

verus! {

/// Every field's type has a Rust mapping.
pub open spec fn all_info_ok(fs: Seq<SpecField>) -> bool {
    forall|i: int| 0 <= i < fs.len() ==> info_ok(#[trigger] fs[i].arrow_type)
}

/// The accessor of column `k`.
pub open spec fn column_ops(f: SpecField, k: int) -> Seq<SpecOp> {
    let info = type_info(f.arrow_type);
    seq![
        SpecOp::Blank,
        line("/// Access the "@ + f.name + " column as a "@ + info.array_type + "."@),
        open("pub fn "@ + ident(f.name) + "(&self) -> &"@ + info.array_type),
        line("self.batch.column("@ + decimal(k) + ")."@ + info.accessor_method + "()"@),
        SpecOp::Close,
    ]
}

/// The accessors of the columns from `k` on.
pub open spec fn columns_ops(fs: Seq<SpecField>, k: int) -> Seq<SpecOp>
    decreases fs.len() - k,
{
    if k < 0 || k >= fs.len() {
        Seq::empty()
    } else {
        column_ops(fs[k], k) + columns_ops(fs, k + 1)
    }
}

/// What `generate_reader` writes for a schema.
pub open spec fn reader_ops(s: SpecSchema) -> Seq<SpecOp> {
    let n = s.name;
    seq![
        line("/// Typed reader for "@ + n + " RecordBatches."@),
        line("///"@),
        line("/// Provides typed column accessors that return the correct Arrow array"@),
        line("/// types without requiring manual downcasting."@),
        open("pub struct "@ + n + "Reader<'a>"@),
        line("batch: &'a RecordBatch,"@),
        SpecOp::Close,
        SpecOp::Blank,
        open("impl<'a> "@ + n + "Reader<'a>"@),
        line("/// Create a reader for the given RecordBatch."@),
        line("///"@),
        line("/// Returns an error if the batch schema does not match "@ + n + "."@),
        open("pub fn try_new(batch: &'a RecordBatch) -> Result<Self, ArrowError>"@),
        line("let expected = "@ + n + "Schema::schema();"@),
        open("if batch.schema().fields() != expected.fields()"@),
        line(
            "return Err(ArrowError::SchemaError(format!(\"expected "@ + n
                + " schema, got {:?}\", batch.schema())));"@,
        ),
        SpecOp::Close,
        line("Ok(Self { batch })"@),
        SpecOp::Close,
    ] + columns_ops(s.fields, 0) + seq![
        SpecOp::Blank,
        line("/// Number of rows in the batch."@),
        open("pub fn num_rows(&self) -> usize"@),
        line("self.batch.num_rows()"@),
        SpecOp::Close,
        SpecOp::Blank,
        line("/// Access the underlying RecordBatch."@),
        open("pub fn batch(&self) -> &RecordBatch"@),
        line("self.batch"@),
        SpecOp::Close,
        SpecOp::Close,
    ]
}

/// Generate the `{Name}Reader<'a>` struct with typed column accessors.
pub fn generate_reader(w: &mut CodePlan, schema: &ArrowSchemaDef)
    requires
        all_info_ok(schema@.fields),
    ensures
        final(w)@ == old(w)@ + reader_ops(schema@),
{
    let ghost start = w@;
    let ghost fs = schema@.fields;
    let name = schema.name.as_str();
    w.line_string(str3("/// Typed reader for ", name, " RecordBatches."));
    w.line("///");
    w.line("/// Provides typed column accessors that return the correct Arrow array");
    w.line("/// types without requiring manual downcasting.");
    w.open_string(str3("pub struct ", name, "Reader<'a>"));
    w.line("batch: &'a RecordBatch,");
    w.close();
    w.blank();
    w.open_string(str3("impl<'a> ", name, "Reader<'a>"));
    w.line("/// Create a reader for the given RecordBatch.");
    w.line("///");
    w.line_string(str3("/// Returns an error if the batch schema does not match ", name, "."));
    w.open("pub fn try_new(batch: &'a RecordBatch) -> Result<Self, ArrowError>");
    w.line_string(str3("let expected = ", name, "Schema::schema();"));
    w.open("if batch.schema().fields() != expected.fields()");
    w.line_string(
        str3(
            "return Err(ArrowError::SchemaError(format!(\"expected ",
            name,
            " schema, got {:?}\", batch.schema())));",
        ),
    );
    w.close();
    w.line("Ok(Self { batch })");
    w.close();
    let ghost head = w@;
    let mut i: usize = 0;
    while i < schema.fields.len()
        invariant
            fs == schema@.fields,
            fs == fields_view(schema.fields@),
            i <= schema.fields@.len(),
            all_info_ok(fs),
            w@.len() >= head.len(),
            w@.subrange(0, head.len() as int) == head,
            w@.subrange(head.len() as int, w@.len() as int) + columns_ops(fs, i as int)
                == columns_ops(fs, 0),
        decreases schema.fields@.len() - i,
    {
        let field = &schema.fields[i];
        proof {
            assert(fs[i as int] == field@);
            assert(info_ok(fs[i as int].arrow_type));
        }
        let ghost before = w@;
        let info = rust_type_info(&field.arrow_type);
        let field_name = rust_field_ident(field.name.as_str());
        let array_type = info.array_type.as_str();
        let accessor = info.accessor_method.as_str();
        let idx = usize_to_string(i);
        w.blank();
        let mut doc = str4("/// Access the ", field.name.as_str(), " column as a ", array_type);
        doc.append(".");
        w.line_string(doc);
        w.open_string(str4("pub fn ", field_name.as_str(), "(&self) -> &", array_type));
        let mut body = str4("self.batch.column(", idx.as_str(), ").", accessor);
        body.append("()");
        w.line_string(body);
        w.close();
        proof {
            let cols = column_ops(fs[i as int], i as int);
            assert(w@ =~= before + cols);
            assert(w@.subrange(0, head.len() as int) =~= head);
            assert(w@.subrange(head.len() as int, w@.len() as int) =~= before.subrange(
                head.len() as int,
                before.len() as int,
            ) + cols);
            assert(before.subrange(head.len() as int, before.len() as int) + columns_ops(
                fs,
                i as int,
            ) =~= w@.subrange(head.len() as int, w@.len() as int) + columns_ops(fs, i + 1));
        }
        i = i + 1;
    }
    let ghost mid = w@;
    proof {
        assert(mid.subrange(head.len() as int, mid.len() as int) + Seq::<SpecOp>::empty()
            =~= mid.subrange(head.len() as int, mid.len() as int));
        assert(mid =~= head + columns_ops(fs, 0));
    }
    w.blank();
    w.line("/// Number of rows in the batch.");
    w.open("pub fn num_rows(&self) -> usize");
    w.line("self.batch.num_rows()");
    w.close();
    w.blank();
    w.line("/// Access the underlying RecordBatch.");
    w.open("pub fn batch(&self) -> &RecordBatch");
    w.line("self.batch");
    w.close();
    w.close();
    assert(w@ =~= start + reader_ops(schema@));
}

} // verus!
