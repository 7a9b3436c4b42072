//! Rust code generation for Arrow schemas.
pub mod builder_gen;
pub mod companion_gen;
pub mod laws;
pub mod nesting;
pub mod plan;
pub mod reader_gen;
pub mod schema_gen;
pub mod type_mapping;

use vstd::prelude::*;

use crate::codegen::builder_gen::{builder_ops, generate_builder};
use crate::codegen::companion_gen::{
    collect_companions, companions_of, companions_ok, companions_ops, generate_companions,
};
use crate::codegen::plan::{CodePlan, SpecOp, rust_file_name, snake_case};
use crate::codegen::reader_gen::{all_info_ok, generate_reader, reader_ops};
use crate::codegen::schema_gen::{generate_schema, schema_ops};
use crate::codegen::type_mapping::{exprs_ok, exprs_supported, type_supported};
use crate::schema_def::{ArrowSchemaDef, ArrowSchemaFile, SpecSchema, fields_view};

verus! {

/// The generators can write the schema: every type that they map has a
/// Rust mapping (the others stop them).
pub open spec fn codegen_ok(s: SpecSchema) -> bool {
    &&& all_info_ok(s.fields)
    &&& exprs_ok(s.fields, 0)
    &&& companions_ok(companions_of(s))
}

/// What the Rust file of a schema holds: its companion structs, then the
/// schema, builder and reader definitions, separated by blank lines.
pub open spec fn rust_file_ops(s: SpecSchema) -> Seq<SpecOp> {
    companions_ops(companions_of(s), 0) + schema_ops(s) + seq![SpecOp::Blank] + builder_ops(
        s,
        companions_of(s),
    ) + seq![SpecOp::Blank] + reader_ops(s)
}

/// Whether the generators can write the schema.
pub fn rust_file_supported(schema: &ArrowSchemaDef) -> (r: bool)
    ensures
        r == codegen_ok(schema@),
{
    let ghost fs = schema@.fields;
    let mut i: usize = 0;
    while i < schema.fields.len()
        invariant
            fs == fields_view(schema.fields@),
            i <= schema.fields@.len(),
            forall|j: int| 0 <= j < i ==> crate::codegen::type_mapping::info_ok(#[trigger] fs[j].arrow_type),
        decreases schema.fields@.len() - i,
    {
        assert(fs[i as int] == schema.fields@[i as int]@);
        if !type_supported(&schema.fields[i].arrow_type) {
            assert(!crate::codegen::type_mapping::info_ok(fs[i as int].arrow_type));
            assert(!all_info_ok(fs));
            return false;
        }
        i = i + 1;
    }
    if !exprs_supported(&schema.fields) {
        return false;
    }
    let companions = collect_companions(schema);
    let ghost cs = companions_of(schema@);
    let mut k: usize = 0;
    while k < companions.len()
        invariant
            cs == companions_of(schema@),
            crate::codegen::companion_gen::pairs_view(companions@) == cs,
            k <= companions@.len(),
            forall|j: int| 0 <= j < k ==> all_info_ok(#[trigger] cs[j].1.fields),
        decreases companions@.len() - k,
    {
        let info = &companions[k].1;
        let ghost mfs = fields_view(info.fields@);
        assert(cs[k as int].1.fields == mfs);
        let mut m: usize = 0;
        while m < info.fields.len()
            invariant
                cs == companions_of(schema@),
                crate::codegen::companion_gen::pairs_view(companions@) == cs,
                k < companions@.len(),
                cs[k as int].1.fields == mfs,
                info == &companions@[k as int].1,
                mfs == fields_view(info.fields@),
                m <= info.fields@.len(),
                forall|j: int| 0 <= j < m ==> crate::codegen::type_mapping::info_ok(#[trigger] mfs[j].arrow_type),
            decreases info.fields@.len() - m,
        {
            assert(mfs[m as int] == info.fields@[m as int]@);
            if !type_supported(&info.fields[m].arrow_type) {
                assert(!crate::codegen::type_mapping::info_ok(mfs[m as int].arrow_type));
                assert(!all_info_ok(cs[k as int].1.fields));
                assert(!companions_ok(cs));
                return false;
            }
            m = m + 1;
        }
        k = k + 1;
    }
    true
}

/// Generate the Rust file of one schema.
pub fn generate_rust_file(schema: &ArrowSchemaDef) -> (r: CodePlan)
    requires
        codegen_ok(schema@),
    ensures
        r@ == rust_file_ops(schema@),
{
    let mut w = CodePlan::new();
    generate_companions(&mut w, schema);
    let companions = collect_companions(schema);
    generate_schema(&mut w, schema);
    w.blank();
    generate_builder(&mut w, schema, &companions);
    w.blank();
    generate_reader(&mut w, schema);
    assert(w@ =~= rust_file_ops(schema@));
    w
}

/// Generate Rust code for all schemas in the file.
/// Returns a list of (filename, content) pairs.
pub fn generate_rust(file: &ArrowSchemaFile) -> (r: Vec<(String, CodePlan)>)
    requires
        forall|i: int| 0 <= i < file@.len() ==> codegen_ok(#[trigger] file@[i]),
    ensures
        r@.len() == file@.len(),
        forall|i: int|
            0 <= i < file@.len() ==> {
                &&& (#[trigger] r@[i]).0@ == snake_case(file@[i].name) + ".rs"@
                &&& r@[i].1@ == rust_file_ops(file@[i])
            },
{
    let mut out: Vec<(String, CodePlan)> = Vec::new();
    let mut i: usize = 0;
    while i < file.schemas.len()
        invariant
            i <= file.schemas@.len(),
            file@.len() == file.schemas@.len(),
            forall|j: int| 0 <= j < file@.len() ==> codegen_ok(#[trigger] file@[j]),
            out@.len() == i,
            forall|j: int|
                0 <= j < i ==> {
                    &&& (#[trigger] out@[j]).0@ == snake_case(file@[j].name) + ".rs"@
                    &&& out@[j].1@ == rust_file_ops(file@[j])
                },
        decreases file.schemas@.len() - i,
    {
        let schema = &file.schemas[i];
        assert(file@[i as int] == schema@);
        let filename = rust_file_name(schema.name.as_str());
        let content = generate_rust_file(schema);
        out.push((filename, content));
        i = i + 1;
    }
    out
}

} // verus!
