//! Companion structs: one plain Rust struct per struct-typed field (at the
//! top level, inside a list, or nested in another struct), used as the
//! typed argument of the builder's `append`.
use vstd::prelude::*;

use crate::arrow_type::{ArrowType, SpecType, clone_fields};
use crate::codegen::plan::{
    CodePlan, SpecOp, ident, line, open, pascal_case, rust_field_ident, to_pascal_case,
};
use crate::codegen::reader_gen::all_info_ok;
use crate::codegen::type_mapping::{info_ok, rust_type_info, type_info};
use crate::schema_def::{ArrowFieldDef, ArrowSchemaDef, SpecField, SpecSchema, fields_view};
use crate::text::{str2, str3, str4};

verus! {

/// Info about a generated companion struct.
#[derive(Debug)]
pub struct CompanionInfo {
    /// The Rust struct name (e.g. `UserEventsLocation`).
    pub struct_name: String,
    /// The fields of the companion struct.
    pub fields: Vec<ArrowFieldDef>,
    /// Whether the struct needs a lifetime parameter.
    pub needs_lifetime: bool,
}

/// The model of a `CompanionInfo`.
pub struct SpecCompanion {
    pub struct_name: Seq<char>,
    pub fields: Seq<SpecField>,
    pub needs_lifetime: bool,
}

impl View for CompanionInfo {
    type V = SpecCompanion;

    open spec fn view(&self) -> SpecCompanion {
        SpecCompanion {
            struct_name: self.struct_name@,
            fields: fields_view(self.fields@),
            needs_lifetime: self.needs_lifetime,
        }
    }
}

impl Clone for CompanionInfo {
    fn clone(&self) -> (r: Self)
        ensures
            r@ == self@,
    {
        CompanionInfo {
            struct_name: self.struct_name.clone(),
            fields: clone_fields(&self.fields),
            needs_lifetime: self.needs_lifetime,
        }
    }
}

/// How a companion is written in a signature.
pub open spec fn type_ref_spec(c: SpecCompanion) -> Seq<char> {
    if c.needs_lifetime {
        c.struct_name + "<'_>"@
    } else {
        c.struct_name
    }
}

impl CompanionInfo {
    /// The type expression for use in function signatures.
    /// Returns e.g. `UserEventsLocation<'_>` or `UserEventsLocation`.
    pub fn type_ref(&self) -> (r: String)
        ensures
            r@ == type_ref_spec(self@),
    {
        if self.needs_lifetime {
            str2(self.struct_name.as_str(), "<'_>")
        } else {
            self.struct_name.clone()
        }
    }
}

// ---------------------------------------------------------------------------
// Which companions a schema has
// ---------------------------------------------------------------------------

/// Whether values of the type borrow (strings and binaries, directly, in a
/// list, or in a struct member).
pub open spec fn needs_lifetime_spec(t: SpecType) -> bool
    decreases t, 0int,
{
    match t {
        SpecType::Utf8 | SpecType::LargeUtf8 => true,
        SpecType::Binary | SpecType::LargeBinary | SpecType::FixedSizeBinary { .. } => true,
        SpecType::List { element } => needs_lifetime_spec(element.arrow_type),
        SpecType::Struct { fields } => any_needs_lifetime(fields, 0),
        _ => false,
    }
}

pub open spec fn any_needs_lifetime(fs: Seq<SpecField>, k: int) -> bool
    decreases fs, fs.len() - k,
{
    if k < 0 || k >= fs.len() {
        false
    } else {
        needs_lifetime_spec(fs[k].arrow_type) || any_needs_lifetime(fs, k + 1)
    }
}

/// The companions of a field of the given type, keyed by field name.
pub open spec fn collect_field(schema_name: Seq<char>, field_name: Seq<char>, t: SpecType) -> Seq<
    (Seq<char>, SpecCompanion),
>
    decreases t, 1int,
{
    match t {
        SpecType::Struct { fields } => {
            let struct_name = schema_name + pascal_case(field_name);
            seq![
                (
                    field_name,
                    SpecCompanion {
                        struct_name,
                        fields,
                        needs_lifetime: any_needs_lifetime(fields, 0),
                    },
                ),
            ] + collect_members(struct_name, fields, 0)
        },
        SpecType::List { element } => collect_field(schema_name, field_name, element.arrow_type),
        SpecType::LargeList { element } => collect_field(
            schema_name,
            field_name,
            element.arrow_type,
        ),
        _ => Seq::empty(),
    }
}

/// The companions of the fields from `k` on, in order.
pub open spec fn collect_members(owner: Seq<char>, fs: Seq<SpecField>, k: int) -> Seq<
    (Seq<char>, SpecCompanion),
>
    decreases fs, fs.len() - k,
{
    if k < 0 || k >= fs.len() {
        Seq::empty()
    } else {
        collect_field(owner, fs[k].name, fs[k].arrow_type) + collect_members(owner, fs, k + 1)
    }
}

/// `collect_companions`: all companions of a schema, in field order, each
/// struct before those nested in it.
pub open spec fn companions_of(s: SpecSchema) -> Seq<(Seq<char>, SpecCompanion)> {
    collect_members(s.name, s.fields, 0)
}

pub open spec fn pairs_view(v: Seq<(String, CompanionInfo)>) -> Seq<(Seq<char>, SpecCompanion)> {
    v.map_values(|p: (String, CompanionInfo)| (p.0@, p.1@))
}

fn field_needs_lifetime(ty: &ArrowType) -> (r: bool)
    ensures
        r == needs_lifetime_spec(ty@),
    decreases ty, 0nat,
{
    match ty {
        ArrowType::Utf8 | ArrowType::LargeUtf8 => {
            assert(needs_lifetime_spec(ty@));
            true
        },
        ArrowType::Binary | ArrowType::LargeBinary | ArrowType::FixedSizeBinary { .. } => {
            assert(needs_lifetime_spec(ty@));
            true
        },
        ArrowType::List { element } => {
            let r = field_needs_lifetime(&element.arrow_type);
            assert(element@.arrow_type == element.arrow_type@);
            r
        },
        ArrowType::Struct { fields } => {
            let r = any_field_needs_lifetime(fields);
            assert(r == needs_lifetime_spec(ty@));
            r
        },
        _ => {
            assert(!needs_lifetime_spec(ty@));
            false
        },
    }
}

fn any_field_needs_lifetime(fields: &Vec<ArrowFieldDef>) -> (r: bool)
    ensures
        r == any_needs_lifetime(fields_view(fields@), 0),
    decreases fields, 1nat,
{
    let ghost fs = fields_view(fields@);
    let mut i: usize = 0;
    while i < fields.len()
        invariant
            fs == fields_view(fields@),
            i <= fields@.len(),
            any_needs_lifetime(fs, 0) == any_needs_lifetime(fs, i as int),
        decreases fields@.len() - i,
    {
        proof {
            assert(fs[i as int] == fields@[i as int]@);
        }
        if field_needs_lifetime(&fields[i].arrow_type) {
            return true;
        }
        i = i + 1;
    }
    false
}

/// Collect all struct types in a schema that need companion structs.
/// Returns (field_name -> CompanionInfo) for each struct field found
/// at the top level, inside a list, or nested in a struct.
pub fn collect_companions(schema: &ArrowSchemaDef) -> (r: Vec<(String, CompanionInfo)>)
    ensures
        pairs_view(r@) == companions_of(schema@),
{
    let mut out: Vec<(String, CompanionInfo)> = Vec::new();
    assert(pairs_view(out@) =~= Seq::<(Seq<char>, SpecCompanion)>::empty());
    collect_members_into(schema.name.as_str(), &schema.fields, &mut out);
    assert(pairs_view(out@) =~= companions_of(schema@));
    out
}

fn collect_members_into(owner: &str, fields: &Vec<ArrowFieldDef>, out: &mut Vec<(String, CompanionInfo)>)
    ensures
        pairs_view(final(out)@) == pairs_view(old(out)@) + collect_members(owner@, fields_view(fields@), 0),
    decreases fields, 2nat,
{
    let ghost fs = fields_view(fields@);
    let ghost start = pairs_view(out@);
    let mut i: usize = 0;
    while i < fields.len()
        invariant
            fs == fields_view(fields@),
            i <= fields@.len(),
            start + collect_members(owner@, fs, 0) == pairs_view(out@) + collect_members(
                owner@,
                fs,
                i as int,
            ),
        decreases fields@.len() - i,
    {
        proof {
            assert(fs[i as int] == fields@[i as int]@);
        }
        let ghost before = pairs_view(out@);
        collect_field_companions(owner, fields[i].name.as_str(), &fields[i].arrow_type, out);
        proof {
            assert(before + collect_members(owner@, fs, i as int) =~= pairs_view(out@)
                + collect_members(owner@, fs, i + 1));
        }
        i = i + 1;
    }
    proof {
        assert(pairs_view(out@) + Seq::<(Seq<char>, SpecCompanion)>::empty() =~= pairs_view(out@));
    }
}

fn collect_field_companions(
    schema_name: &str,
    field_name: &str,
    ty: &ArrowType,
    out: &mut Vec<(String, CompanionInfo)>,
)
    ensures
        pairs_view(final(out)@) == pairs_view(old(out)@) + collect_field(schema_name@, field_name@, ty@),
    decreases ty, 1nat,
{
    match ty {
        ArrowType::Struct { fields } => {
            let pascal = to_pascal_case(field_name);
            let struct_name = str2(schema_name, pascal.as_str());
            let needs_lifetime = any_field_needs_lifetime(fields);
            let info = CompanionInfo {
                struct_name: struct_name.clone(),
                fields: clone_fields(fields),
                needs_lifetime,
            };
            let ghost before = pairs_view(out@);
            out.push((field_name.to_owned(), info));
            proof {
                assert(pairs_view(out@) =~= before.push((field_name@, info@)));
            }
            collect_members_into(struct_name.as_str(), fields, out);
            proof {
                let sn = schema_name@ + pascal_case(field_name@);
                assert(struct_name@ == sn);
                let fs = fields_view(fields@);
                assert(ty@ == SpecType::Struct { fields: fs });
                assert(info@ == SpecCompanion { struct_name: sn, fields: fs, needs_lifetime: any_needs_lifetime(fs, 0) });
                assert(collect_field(schema_name@, field_name@, ty@) == seq![(field_name@, info@)] + collect_members(sn, fs, 0));
                assert(pairs_view(out@) =~= before + collect_field(schema_name@, field_name@, ty@));
            }
        },
        ArrowType::List { element } => {
            collect_field_companions(schema_name, field_name, &element.arrow_type, out);
            assert(element@.arrow_type == element.arrow_type@);
        },
        ArrowType::LargeList { element } => {
            collect_field_companions(schema_name, field_name, &element.arrow_type, out);
            assert(element@.arrow_type == element.arrow_type@);
        },
        _ => {
            assert(pairs_view(out@) =~= pairs_view(out@) + collect_field(
                schema_name@,
                field_name@,
                ty@,
            ));
        },
    }
}

// ---------------------------------------------------------------------------
// Writing them
// ---------------------------------------------------------------------------

/// The Rust type of a companion member.
pub open spec fn companion_field_type_spec(f: SpecField) -> Seq<char> {
    let base = match f.arrow_type {
        SpecType::Utf8 | SpecType::LargeUtf8 => "&'a str"@,
        SpecType::Binary | SpecType::LargeBinary | SpecType::FixedSizeBinary { .. } => "&'a [u8]"@,
        _ => type_info(f.arrow_type).append_type,
    };
    if f.nullable {
        "Option<"@ + base + ">"@
    } else {
        base
    }
}

pub open spec fn member_lines(fs: Seq<SpecField>, k: int) -> Seq<SpecOp>
    decreases fs.len() - k,
{
    if k < 0 || k >= fs.len() {
        Seq::empty()
    } else {
        seq![line("pub "@ + ident(fs[k].name) + ": "@ + companion_field_type_spec(fs[k]) + ","@)]
            + member_lines(fs, k + 1)
    }
}

/// What `generate_one_companion` writes.
pub open spec fn companion_ops(c: SpecCompanion) -> Seq<SpecOp> {
    let lifetime = if c.needs_lifetime {
        "<'a>"@
    } else {
        Seq::empty()
    };
    seq![
        line("/// Companion struct for the `"@ + c.struct_name + "` nested type."@),
        open("pub struct "@ + c.struct_name + lifetime),
    ] + member_lines(c.fields, 0) + seq![SpecOp::Close]
}

/// What `generate_companions` writes: each companion, then a blank line.
pub open spec fn companions_ops(cs: Seq<(Seq<char>, SpecCompanion)>, k: int) -> Seq<SpecOp>
    decreases cs.len() - k,
{
    if k < 0 || k >= cs.len() {
        Seq::empty()
    } else {
        companion_ops(cs[k].1) + seq![SpecOp::Blank] + companions_ops(cs, k + 1)
    }
}

/// Every companion's members have a Rust mapping.
pub open spec fn companions_ok(cs: Seq<(Seq<char>, SpecCompanion)>) -> bool {
    forall|i: int| 0 <= i < cs.len() ==> all_info_ok(#[trigger] cs[i].1.fields)
}

/// Generate all companion structs for a schema.
pub fn generate_companions(w: &mut CodePlan, schema: &ArrowSchemaDef)
    requires
        companions_ok(companions_of(schema@)),
    ensures
        final(w)@ == old(w)@ + companions_ops(companions_of(schema@), 0),
{
    let companions = collect_companions(schema);
    let ghost cs = companions_of(schema@);
    let ghost start = w@;
    let mut i: usize = 0;
    while i < companions.len()
        invariant
            cs == companions_of(schema@),
            pairs_view(companions@) == cs,
            companions_ok(cs),
            i <= companions@.len(),
            start + companions_ops(cs, 0) == w@ + companions_ops(cs, i as int),
        decreases companions@.len() - i,
    {
        proof {
            assert(cs[i as int] == (companions@[i as int].0@, companions@[i as int].1@));
        }
        let ghost before = w@;
        generate_one_companion(w, &companions[i].1);
        w.blank();
        proof {
            assert(before + companions_ops(cs, i as int) =~= w@ + companions_ops(cs, i + 1));
        }
        i = i + 1;
    }
    proof {
        assert(w@ + Seq::<SpecOp>::empty() =~= w@);
    }
}

fn companion_field_type(field: &ArrowFieldDef) -> (r: String)
    requires
        info_ok(field@.arrow_type),
    ensures
        r@ == companion_field_type_spec(field@),
{
    let info = rust_type_info(&field.arrow_type);
    let base = match &field.arrow_type {
        ArrowType::Utf8 | ArrowType::LargeUtf8 => "&'a str".to_owned(),
        ArrowType::Binary | ArrowType::LargeBinary | ArrowType::FixedSizeBinary { .. } => "&'a [u8]".to_owned(),
        _ => info.append_type,
    };
    if field.nullable {
        str3("Option<", base.as_str(), ">")
    } else {
        base
    }
}

fn generate_one_companion(w: &mut CodePlan, info: &CompanionInfo)
    requires
        all_info_ok(info@.fields),
    ensures
        final(w)@ == old(w)@ + companion_ops(info@),
{
    let ghost start = w@;
    let ghost fs = info@.fields;
    let lifetime = if info.needs_lifetime {
        "<'a>"
    } else {
        ""
    };
    proof {
        if !info.needs_lifetime {
            reveal_strlit("");
        }
    }
    w.line_string(str3("/// Companion struct for the `", info.struct_name.as_str(), "` nested type."));
    w.open_string(str3("pub struct ", info.struct_name.as_str(), lifetime));
    let ghost head = w@;
    let mut i: usize = 0;
    while i < info.fields.len()
        invariant
            fs == info@.fields,
            fs == fields_view(info.fields@),
            i <= info.fields@.len(),
            all_info_ok(fs),
            head + member_lines(fs, 0) == w@ + member_lines(fs, i as int),
        decreases info.fields@.len() - i,
    {
        let field = &info.fields[i];
        proof {
            assert(fs[i as int] == field@);
            assert(info_ok(fs[i as int].arrow_type));
        }
        let ghost before = w@;
        let field_name = rust_field_ident(field.name.as_str());
        let rust_type = companion_field_type(field);
        let mut l = str4("pub ", field_name.as_str(), ": ", rust_type.as_str());
        l.append(",");
        w.line_string(l);
        proof {
            assert(before + member_lines(fs, i as int) =~= w@ + member_lines(fs, i + 1));
        }
        i = i + 1;
    }
    w.close();
    proof {
        assert(w@ =~= start + companion_ops(info@));
    }
}


// ---------------------------------------------------------------------------
// Which fields get a companion
// ---------------------------------------------------------------------------

/// The companion of a struct-typed field with the given members.
pub open spec fn companion_for(owner: Seq<char>, name: Seq<char>, fields: Seq<SpecField>) -> (
    Seq<char>,
    SpecCompanion,
) {
    (
        name,
        SpecCompanion {
            struct_name: owner + pascal_case(name),
            fields,
            needs_lifetime: any_needs_lifetime(fields, 0),
        },
    )
}

/// The members of a struct, or of a struct that a list holds.
pub open spec fn struct_members(t: SpecType) -> Option<Seq<SpecField>> {
    match t {
        SpecType::Struct { fields } => Some(fields),
        SpecType::List { element } => match element.arrow_type {
            SpecType::Struct { fields } => Some(fields),
            _ => None,
        },
        SpecType::LargeList { element } => match element.arrow_type {
            SpecType::Struct { fields } => Some(fields),
            _ => None,
        },
        _ => None,
    }
}

proof fn lemma_field_companion(owner: Seq<char>, name: Seq<char>, t: SpecType)
    requires
        struct_members(t) is Some,
    ensures
        collect_field(owner, name, t).len() > 0,
        collect_field(owner, name, t)[0] == companion_for(owner, name, struct_members(t)->0),
{
    match t {
        SpecType::List { element } => {
            assert(collect_field(owner, name, t) == collect_field(owner, name, element.arrow_type));
        },
        SpecType::LargeList { element } => {
            assert(collect_field(owner, name, t) == collect_field(owner, name, element.arrow_type));
        },
        _ => {},
    }
}

proof fn lemma_members_contain(owner: Seq<char>, fs: Seq<SpecField>, k: int, j: int, x: (
    Seq<char>,
    SpecCompanion,
))
    requires
        0 <= k <= j < fs.len(),
        collect_field(owner, fs[j].name, fs[j].arrow_type).contains(x),
    ensures
        collect_members(owner, fs, k).contains(x),
    decreases j - k,
{
    let head = collect_field(owner, fs[k].name, fs[k].arrow_type);
    let rest = collect_members(owner, fs, k + 1);
    assert(collect_members(owner, fs, k) == head + rest);
    if j == k {
        let p = choose|p: int| 0 <= p < head.len() && head[p] == x;
        assert((head + rest)[p] == x);
    } else {
        lemma_members_contain(owner, fs, k + 1, j, x);
        let p = choose|p: int| 0 <= p < rest.len() && rest[p] == x;
        assert((head + rest)[head.len() + p] == x);
    }
}

/// Every field of a schema that holds a struct, directly or in a list, has
/// a companion under its own name: the schema's name followed by the
/// field's name in UpperCamelCase, with the struct's members.
pub proof fn law_struct_fields_have_companions(s: SpecSchema, i: int)
    requires
        0 <= i < s.fields.len(),
        struct_members(s.fields[i].arrow_type) is Some,
    ensures
        companions_of(s).contains(
            companion_for(s.name, s.fields[i].name, struct_members(s.fields[i].arrow_type)->0),
        ),
{
    let f = s.fields[i];
    lemma_field_companion(s.name, f.name, f.arrow_type);
    let x = companion_for(s.name, f.name, struct_members(f.arrow_type)->0);
    assert(collect_field(s.name, f.name, f.arrow_type)[0] == x);
    lemma_members_contain(s.name, s.fields, 0, i, x);
}

/// The companion of the struct reached from a field of type `t` (named
/// `name`, with owner `owner`) by following `path`: each step picks a member
/// of the struct that the field holds, directly or as list elements.
pub open spec fn companion_at(owner: Seq<char>, name: Seq<char>, t: SpecType, path: Seq<int>) -> Option<
    (Seq<char>, SpecCompanion),
>
    decreases path.len(),
{
    match struct_members(t) {
        None => None,
        Some(fs) => if path.len() == 0 {
            Some(companion_for(owner, name, fs))
        } else {
            let j = path[0];
            if 0 <= j < fs.len() {
                companion_at(owner + pascal_case(name), fs[j].name, fs[j].arrow_type, path.drop_first())
            } else {
                None
            }
        },
    }
}

/// Depth-first pre-order: the companions of a field that holds a struct,
/// directly or as list elements, are that struct's companion, then the
/// companions of its members in member order, owned by the struct's name.
pub proof fn law_companion_preorder(owner: Seq<char>, name: Seq<char>, t: SpecType)
    requires
        struct_members(t) is Some,
    ensures
        collect_field(owner, name, t) == seq![companion_for(owner, name, struct_members(t)->0)]
            + collect_members(owner + pascal_case(name), struct_members(t)->0, 0),
{
    match t {
        SpecType::List { element } => {
            assert(collect_field(owner, name, t) == collect_field(owner, name, element.arrow_type));
        },
        SpecType::LargeList { element } => {
            assert(collect_field(owner, name, t) == collect_field(owner, name, element.arrow_type));
        },
        _ => {},
    }
}

proof fn lemma_companion_at(owner: Seq<char>, name: Seq<char>, t: SpecType, path: Seq<int>)
    requires
        companion_at(owner, name, t, path) is Some,
    ensures
        collect_field(owner, name, t).contains(companion_at(owner, name, t, path)->0),
    decreases path.len(),
{
    let fs = struct_members(t)->0;
    law_companion_preorder(owner, name, t);
    let all = collect_field(owner, name, t);
    let x = companion_at(owner, name, t, path)->0;
    if path.len() == 0 {
        assert(all[0] == x);
    } else {
        let j = path[0];
        let o2 = owner + pascal_case(name);
        lemma_companion_at(o2, fs[j].name, fs[j].arrow_type, path.drop_first());
        lemma_members_contain(o2, fs, 0, j, x);
        let rest = collect_members(o2, fs, 0);
        let p = choose|p: int| 0 <= p < rest.len() && rest[p] == x;
        assert(all[1 + p] == x);
    }
}

/// Every struct reached from a top-level field, through struct members and
/// list elements at any depth, has a companion among the schema's.
pub proof fn law_reached_structs_have_companions(s: SpecSchema, i: int, path: Seq<int>)
    requires
        0 <= i < s.fields.len(),
        companion_at(s.name, s.fields[i].name, s.fields[i].arrow_type, path) is Some,
    ensures
        companions_of(s).contains(
            companion_at(s.name, s.fields[i].name, s.fields[i].arrow_type, path)->0,
        ),
{
    let f = s.fields[i];
    lemma_companion_at(s.name, f.name, f.arrow_type, path);
    lemma_members_contain(
        s.name,
        s.fields,
        0,
        i,
        companion_at(s.name, f.name, f.arrow_type, path)->0,
    );
}

} // verus!
