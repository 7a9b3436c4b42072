//! The schema file as written by users (JSON or YAML, read in by the
//! application), and its conversion to the IR.
use std::collections::BTreeMap;
use vstd::prelude::*;

pub use crate::type_parser::parse_type_string;

use crate::arrow_type::{ArrowType, SpecType};
use crate::error::{SchemaError, SpecError};
use crate::schema_def::{
    ArrowFieldDef, ArrowSchemaDef, ArrowSchemaFile, SpecField, SpecSchema, fields_view,
};
use crate::text::Text;
use crate::type_parser::Step;
use crate::type_spec::{Outcome, parse_type};

verus! {

/// A schema file: a version and its schemas.
pub struct InputSchemaFile {
    pub version: u32,
    pub schemas: Vec<InputSchema>,
}

/// One schema as written in the file.
pub struct InputSchema {
    pub name: String,
    pub metadata: BTreeMap<String, String>,
    pub fields: Vec<InputField>,
}

/// One field as written in the file.
pub struct InputField {
    pub name: String,
    pub type_: InputType,
    pub nullable: bool,
    pub metadata: BTreeMap<String, String>,
}

/// The `type` of a field: a type string (`"int32"`, `"list<utf8>"`) or an
/// inline struct definition (a mapping with a `struct` key).
pub enum InputType {
    Simple(String),
    InlineStruct { fields: Vec<InputField> },
}

/// Fields are nullable unless the file says otherwise.
pub fn default_true() -> (r: bool)
    ensures
        r,
{
    true
}

// ---------------------------------------------------------------------------
// What the conversion means
// ---------------------------------------------------------------------------

/// Every type string in the field is shorter than the parser's length bound.
pub open spec fn field_short(f: InputField) -> bool
    decreases f, 0int,
{
    match f.type_ {
        InputType::Simple(s) => s@.len() < 0x7fff_ffff,
        InputType::InlineStruct { fields } => fields_short(fields@, 0),
    }
}

pub open spec fn fields_short(fs: Seq<InputField>, k: int) -> bool
    decreases fs, fs.len() - k,
{
    if k < 0 || k >= fs.len() {
        true
    } else {
        field_short(fs[k]) && fields_short(fs, k + 1)
    }
}

pub open spec fn schemas_short(ss: Seq<InputSchema>) -> bool {
    forall|i: int| 0 <= i < ss.len() ==> fields_short(#[trigger] ss[i].fields@, 0)
}

/// The IR field that an input field converts to.
pub open spec fn field_ir(f: InputField) -> Outcome<SpecField>
    decreases f, 0int,
{
    let mk = |t: SpecType| SpecField {
        name: f.name@,
        arrow_type: t,
        nullable: f.nullable,
        metadata: f.metadata@,
    };
    match f.type_ {
        InputType::Simple(s) => match parse_type(s@) {
            Outcome::Done(t) => Outcome::Done(mk(t)),
            Outcome::Fail(m) => Outcome::Fail(m),
            Outcome::Abort => Outcome::Abort,
        },
        InputType::InlineStruct { fields } => match fields_ir(fields@, 0) {
            Outcome::Done(fs) => Outcome::Done(mk(SpecType::Struct { fields: fs })),
            Outcome::Fail(m) => Outcome::Fail(m),
            Outcome::Abort => Outcome::Abort,
        },
    }
}

/// The IR fields that `fs[k..]` convert to; the first failure wins.
pub open spec fn fields_ir(fs: Seq<InputField>, k: int) -> Outcome<Seq<SpecField>>
    decreases fs, fs.len() - k,
{
    if k < 0 || k >= fs.len() {
        Outcome::Done(Seq::empty())
    } else {
        match field_ir(fs[k]) {
            Outcome::Done(f) => match fields_ir(fs, k + 1) {
                Outcome::Done(rest) => Outcome::Done(seq![f] + rest),
                Outcome::Fail(m) => Outcome::Fail(m),
                Outcome::Abort => Outcome::Abort,
            },
            Outcome::Fail(m) => Outcome::Fail(m),
            Outcome::Abort => Outcome::Abort,
        }
    }
}

pub open spec fn schema_ir(s: InputSchema) -> Outcome<SpecSchema> {
    match fields_ir(s.fields@, 0) {
        Outcome::Done(fs) => Outcome::Done(
            SpecSchema { name: s.name@, fields: fs, metadata: s.metadata@ },
        ),
        Outcome::Fail(m) => Outcome::Fail(m),
        Outcome::Abort => Outcome::Abort,
    }
}

pub open spec fn schemas_ir(ss: Seq<InputSchema>, k: int) -> Outcome<Seq<SpecSchema>>
    decreases ss.len() - k,
{
    if k < 0 || k >= ss.len() {
        Outcome::Done(Seq::empty())
    } else {
        match schema_ir(ss[k]) {
            Outcome::Done(s) => match schemas_ir(ss, k + 1) {
                Outcome::Done(rest) => Outcome::Done(seq![s] + rest),
                Outcome::Fail(m) => Outcome::Fail(m),
                Outcome::Abort => Outcome::Abort,
            },
            Outcome::Fail(m) => Outcome::Fail(m),
            Outcome::Abort => Outcome::Abort,
        }
    }
}

/// What `InputSchemaFile::into_ir` gives, when it does not panic: the IR
/// schema file, or the first type string that does not parse.
pub open spec fn file_ir_result(f: InputSchemaFile) -> Result<Seq<SpecSchema>, SpecError> {
    match schemas_ir(f.schemas@, 0) {
        Outcome::Done(ss) => Ok(ss),
        Outcome::Fail(m) => Err(SpecError::InvalidType(m)),
        Outcome::Abort => Err(SpecError::InvalidType(Seq::empty())),
    }
}

pub open spec fn result_file_view(r: Result<ArrowSchemaFile, SchemaError>) -> Result<
    Seq<SpecSchema>,
    SpecError,
> {
    match r {
        Ok(f) => Ok(f@),
        Err(e) => Err(e@),
    }
}

pub open spec fn step_field(r: Step<ArrowFieldDef>) -> Outcome<SpecField> {
    match r {
        Step::Done(f) => Outcome::Done(f@),
        Step::Fail(m) => Outcome::Fail(m@),
        Step::Abort => Outcome::Abort,
    }
}

pub open spec fn step_fields(r: Step<Vec<ArrowFieldDef>>) -> Outcome<Seq<SpecField>> {
    match r {
        Step::Done(v) => Outcome::Done(fields_view(v@)),
        Step::Fail(m) => Outcome::Fail(m@),
        Step::Abort => Outcome::Abort,
    }
}

pub open spec fn prepend<T>(xs: Seq<T>, o: Outcome<Seq<T>>) -> Outcome<Seq<T>> {
    match o {
        Outcome::Done(rest) => Outcome::Done(xs + rest),
        Outcome::Fail(m) => Outcome::Fail(m),
        Outcome::Abort => Outcome::Abort,
    }
}

// ---------------------------------------------------------------------------
// Conversion
// ---------------------------------------------------------------------------

impl InputField {
    /// Convert one field: parse its type string, or convert its inline
    /// struct's fields.
    fn into_ir(&self) -> (r: Step<ArrowFieldDef>)
        requires
            field_short(*self),
        ensures
            step_field(r) == field_ir(*self),
        decreases *self, 0nat,
    {
        let arrow_type = match &self.type_ {
            InputType::Simple(s) => {
                let t = Text::new(s.as_str());
                proof {
                    assert(t.sub(0, t.chars@.len() as int) =~= s@);
                }
                match crate::type_parser::parse_in(&t, 0, t.len()) {
                    Step::Done(ty) => ty,
                    Step::Fail(m) => {
                        return Step::Fail(m);
                    },
                    Step::Abort => {
                        return Step::Abort;
                    },
                }
            },
            InputType::InlineStruct { fields } => match fields_into_ir(fields) {
                Step::Done(fs) => ArrowType::Struct { fields: fs },
                Step::Fail(m) => {
                    return Step::Fail(m);
                },
                Step::Abort => {
                    return Step::Abort;
                },
            },
        };
        Step::Done(
            ArrowFieldDef {
                name: self.name.clone(),
                arrow_type,
                nullable: self.nullable,
                metadata: self.metadata.clone(),
            },
        )
    }
}

/// Convert a list of fields in order; the first failure wins.
fn fields_into_ir(fs: &Vec<InputField>) -> (r: Step<Vec<ArrowFieldDef>>)
    requires
        fields_short(fs@, 0),
    ensures
        step_fields(r) == fields_ir(fs@, 0),
    decreases fs, fs@.len() + 1,
{
    let mut acc: Vec<ArrowFieldDef> = Vec::new();
    let mut k: usize = 0;
    proof {
        lemma_fields_short(fs@, 0);
    }
    while k < fs.len()
        invariant
            k <= fs@.len(),
            forall|i: int| 0 <= i < fs@.len() ==> field_short(#[trigger] fs@[i]),
            fields_ir(fs@, 0) == prepend(fields_view(acc@), fields_ir(fs@, k as int)),
        decreases fs@.len() - k,
    {
        match fs[k].into_ir() {
            Step::Done(f) => {
                let ghost before = fields_view(acc@);
                acc.push(f);
                proof {
                    assert(fields_view(acc@) =~= before.push(f@)) by {
                        assert forall|i: int| 0 <= i < acc@.len() implies #[trigger] fields_view(
                            acc@,
                        )[i] == before.push(f@)[i] by {}
                    }
                    match fields_ir(fs@, k + 1) {
                        Outcome::Done(rest) => {
                            assert(before + (seq![f@] + rest) =~= before.push(f@) + rest);
                        },
                        _ => {},
                    }
                }
            },
            Step::Fail(m) => {
                return Step::Fail(m);
            },
            Step::Abort => {
                return Step::Abort;
            },
        }
        k = k + 1;
    }
    proof {
        assert(fields_view(acc@) + Seq::<SpecField>::empty() =~= fields_view(acc@));
    }
    Step::Done(acc)
}

proof fn lemma_fields_short(fs: Seq<InputField>, k: int)
    requires
        0 <= k,
        fields_short(fs, k),
    ensures
        forall|i: int| k <= i < fs.len() ==> field_short(#[trigger] fs[i]),
    decreases fs.len() - k,
{
    if k < fs.len() {
        lemma_fields_short(fs, k + 1);
    }
}

impl InputSchema {
    /// Convert one schema: its fields in order.
    fn into_ir(&self) -> (r: Step<ArrowSchemaDef>)
        requires
            fields_short(self.fields@, 0),
        ensures
            match r {
                Step::Done(s) => schema_ir(*self) == Outcome::Done(s@),
                Step::Fail(m) => schema_ir(*self) == Outcome::<SpecSchema>::Fail(m@),
                Step::Abort => schema_ir(*self) is Abort,
            },
    {
        match fields_into_ir(&self.fields) {
            Step::Done(fields) => Step::Done(
                ArrowSchemaDef {
                    name: self.name.clone(),
                    fields,
                    metadata: self.metadata.clone(),
                },
            ),
            Step::Fail(m) => Step::Fail(m),
            Step::Abort => Step::Abort,
        }
    }
}

impl InputSchemaFile {
    /// Convert the whole file to the IR, or return the first type string
    /// that does not parse.
    pub fn into_ir(self) -> (r: Result<ArrowSchemaFile, SchemaError>)
        requires
            schemas_short(self.schemas@),
            !(schemas_ir(self.schemas@, 0) is Abort),
        ensures
            result_file_view(r) == file_ir_result(self),
    {
        match self.try_into_ir() {
            Some(r) => r,
            None => Err(SchemaError::InvalidType(String::new())),
        }
    }

    /// `into_ir`, or `None` on the files on which it would panic (a type
    /// string with a `]` or `)` before its first `[` or `(`).
    pub fn try_into_ir(self) -> (r: Option<Result<ArrowSchemaFile, SchemaError>>)
        requires
            schemas_short(self.schemas@),
        ensures
            r is None <==> schemas_ir(self.schemas@, 0) is Abort,
            r matches Some(res) ==> result_file_view(res) == file_ir_result(self),
    {
        let mut acc: Vec<ArrowSchemaDef> = Vec::new();
        let mut k: usize = 0;
        while k < self.schemas.len()
            invariant
                k <= self.schemas@.len(),
                schemas_short(self.schemas@),
                schemas_ir(self.schemas@, 0) == prepend(
                    acc@.map_values(|s: ArrowSchemaDef| s@),
                    schemas_ir(self.schemas@, k as int),
                ),
            decreases self.schemas@.len() - k,
        {
            proof {
                assert(fields_short(self.schemas@[k as int].fields@, 0));
            }
            match self.schemas[k].into_ir() {
                Step::Done(s) => {
                    let ghost before = acc@.map_values(|s: ArrowSchemaDef| s@);
                    acc.push(s);
                    proof {
                        assert(acc@.map_values(|s: ArrowSchemaDef| s@) =~= before.push(s@));
                        match schemas_ir(self.schemas@, k + 1) {
                            Outcome::Done(rest) => {
                                assert(before + (seq![s@] + rest) =~= before.push(s@) + rest);
                            },
                            _ => {},
                        }
                    }
                },
                Step::Fail(m) => {
                    return Some(Err(SchemaError::InvalidType(m)));
                },
                Step::Abort => {
                    return None;
                },
            }
            k = k + 1;
        }
        let file = ArrowSchemaFile { schemas: acc };
        proof {
            assert(acc@.map_values(|s: ArrowSchemaDef| s@) + Seq::<SpecSchema>::empty() =~= acc@.map_values(
                |s: ArrowSchemaDef| s@,
            ));
        }
        Some(Ok(file))
    }
}


// ---------------------------------------------------------------------------
// What the conversion keeps
// ---------------------------------------------------------------------------

/// An IR field keeps the name, nullability and metadata of its input field.
pub open spec fn keeps_field(out: SpecField, f: InputField) -> bool {
    &&& out.name == f.name@
    &&& out.nullable == f.nullable
    &&& out.metadata == f.metadata@
    &&& field_ir(f) == Outcome::Done(out)
}

/// An IR schema keeps the name, metadata and fields (in order) of its input.
pub open spec fn keeps_schema(out: SpecSchema, s: InputSchema) -> bool {
    &&& out.name == s.name@
    &&& out.metadata == s.metadata@
    &&& out.fields.len() == s.fields@.len()
    &&& forall|j: int| 0 <= j < out.fields.len() ==> keeps_field(#[trigger] out.fields[j], s.fields@[j])
}

proof fn lemma_fields_ir_keeps(fs: Seq<InputField>, k: int)
    requires
        0 <= k <= fs.len(),
        fields_ir(fs, k) is Done,
    ensures
        ({
            let out = fields_ir(fs, k)->Done_0;
            &&& out.len() == fs.len() - k
            &&& forall|j: int| 0 <= j < out.len() ==> keeps_field(#[trigger] out[j], fs[k + j])
        }),
    decreases fs.len() - k,
{
    if k < fs.len() {
        lemma_fields_ir_keeps(fs, k + 1);
        let out = fields_ir(fs, k)->Done_0;
        let rest = fields_ir(fs, k + 1)->Done_0;
        let f = field_ir(fs[k])->Done_0;
        assert(out == seq![f] + rest);
        assert forall|j: int| 0 <= j < out.len() implies keeps_field(#[trigger] out[j], fs[k + j]) by {
            if j > 0 {
                assert(out[j] == rest[j - 1]);
                assert(k + 1 + (j - 1) == k + j);
            }
        }
    }
}

proof fn lemma_schemas_ir_keeps(ss: Seq<InputSchema>, k: int)
    requires
        0 <= k <= ss.len(),
        schemas_ir(ss, k) is Done,
    ensures
        ({
            let out = schemas_ir(ss, k)->Done_0;
            &&& out.len() == ss.len() - k
            &&& forall|i: int| 0 <= i < out.len() ==> keeps_schema(#[trigger] out[i], ss[k + i])
        }),
    decreases ss.len() - k,
{
    if k < ss.len() {
        lemma_schemas_ir_keeps(ss, k + 1);
        lemma_fields_ir_keeps(ss[k].fields@, 0);
        let out = schemas_ir(ss, k)->Done_0;
        let rest = schemas_ir(ss, k + 1)->Done_0;
        let s = schema_ir(ss[k])->Done_0;
        assert(out == seq![s] + rest);
        assert forall|i: int| 0 <= i < out.len() implies keeps_schema(#[trigger] out[i], ss[k + i]) by {
            if i > 0 {
                assert(out[i] == rest[i - 1]);
                assert(k + 1 + (i - 1) == k + i);
            } else {
                assert(out[0] == s);
            }
        }
    }
}

/// Converting a schema file to the IR keeps its shape: the same schemas in
/// the same order, each with its name, metadata and fields, and each field
/// with its name, nullability and metadata.
pub proof fn law_into_ir_keeps_shape(f: InputSchemaFile)
    requires
        file_ir_result(f) is Ok,
    ensures
        file_ir_result(f)->Ok_0.len() == f.schemas@.len(),
        forall|i: int|
            0 <= i < f.schemas@.len() ==> keeps_schema(
                #[trigger] file_ir_result(f)->Ok_0[i],
                f.schemas@[i],
            ),
{
    lemma_schemas_ir_keeps(f.schemas@, 0);
    let out = file_ir_result(f)->Ok_0;
    assert forall|i: int| 0 <= i < f.schemas@.len() implies keeps_schema(
        #[trigger] out[i],
        f.schemas@[i],
    ) by {
        assert(f.schemas@[0 + i] == f.schemas@[i]);
    }
}

/// A converted field has the type that its type string parses to, or, for
/// an inline struct, a struct of its converted members.
pub proof fn law_field_conversion(f: InputField)
    requires
        field_ir(f) is Done,
    ensures
        ({
            let out = field_ir(f)->Done_0;
            &&& out.name == f.name@
            &&& out.nullable == f.nullable
            &&& out.metadata == f.metadata@
            &&& match f.type_ {
                InputType::Simple(s) => parse_type(s@) == Outcome::Done(out.arrow_type),
                InputType::InlineStruct { fields } => fields_ir(fields@, 0) is Done
                    && out.arrow_type == SpecType::Struct { fields: fields_ir(fields@, 0)->Done_0 },
            }
        }),
{
}

// ---------------------------------------------------------------------------
// When the conversion succeeds
// ---------------------------------------------------------------------------

/// The type strings of a field, in depth-first order.
pub open spec fn field_strings(f: InputField) -> Seq<Seq<char>>
    decreases f, 0int,
{
    match f.type_ {
        InputType::Simple(s) => seq![s@],
        InputType::InlineStruct { fields } => fields_strings(fields@, 0),
    }
}

/// The type strings of the fields from the `k`-th on, in depth-first order.
pub open spec fn fields_strings(fs: Seq<InputField>, k: int) -> Seq<Seq<char>>
    decreases fs, fs.len() - k,
{
    if k < 0 || k >= fs.len() {
        Seq::empty()
    } else {
        field_strings(fs[k]) + fields_strings(fs, k + 1)
    }
}

/// The type strings of the schemas from the `k`-th on, in depth-first order.
pub open spec fn schemas_strings(ss: Seq<InputSchema>, k: int) -> Seq<Seq<char>>
    decreases ss.len() - k,
{
    if k < 0 || k >= ss.len() {
        Seq::empty()
    } else {
        fields_strings(ss[k].fields@, 0) + schemas_strings(ss, k + 1)
    }
}

/// What parsing gives on the first type string, from the `i`-th on, that
/// does not parse.
pub open spec fn first_unparsed(strs: Seq<Seq<char>>, i: int) -> Option<Outcome<SpecType>>
    decreases strs.len() - i,
{
    if i < 0 || i >= strs.len() {
        None
    } else if parse_type(strs[i]) is Done {
        first_unparsed(strs, i + 1)
    } else {
        Some(parse_type(strs[i]))
    }
}

/// An outcome is the one that the first unparsed string decides.
pub open spec fn decided_by<T>(o: Outcome<T>, u: Option<Outcome<SpecType>>) -> bool {
    match u {
        None => o is Done,
        Some(Outcome::Fail(m)) => o == Outcome::<T>::Fail(m),
        Some(Outcome::Abort) => o is Abort,
        Some(Outcome::Done(_)) => false,
    }
}

proof fn lemma_first_unparsed_add(a: Seq<Seq<char>>, b: Seq<Seq<char>>, i: int)
    requires
        0 <= i <= a.len(),
    ensures
        first_unparsed(a + b, i) == (match first_unparsed(a, i) {
            Some(o) => Some(o),
            None => first_unparsed(b, 0),
        }),
    decreases a.len() - i,
{
    if i < a.len() {
        assert((a + b)[i] == a[i]);
        lemma_first_unparsed_add(a, b, i + 1);
    } else {
        lemma_first_unparsed_shift(a, b, 0);
    }
}

proof fn lemma_first_unparsed_shift(a: Seq<Seq<char>>, b: Seq<Seq<char>>, j: int)
    requires
        0 <= j <= b.len(),
    ensures
        first_unparsed(a + b, a.len() + j) == first_unparsed(b, j),
    decreases b.len() - j,
{
    if j < b.len() {
        assert((a + b)[a.len() + j] == b[j]);
        lemma_first_unparsed_shift(a, b, j + 1);
    }
}

proof fn lemma_field_decided(f: InputField)
    ensures
        decided_by(field_ir(f), first_unparsed(field_strings(f), 0)),
    decreases f, 0int,
{
    match f.type_ {
        InputType::Simple(s) => {
            let strs = seq![s@];
            assert(strs[0] == s@);
            assert(first_unparsed(strs, 1) is None);
        },
        InputType::InlineStruct { fields } => {
            lemma_fields_decided(fields@, 0);
        },
    }
}

proof fn lemma_fields_decided(fs: Seq<InputField>, k: int)
    ensures
        decided_by(fields_ir(fs, k), first_unparsed(fields_strings(fs, k), 0)),
    decreases fs, fs.len() - k,
{
    if 0 <= k < fs.len() {
        lemma_field_decided(fs[k]);
        lemma_fields_decided(fs, k + 1);
        lemma_first_unparsed_add(field_strings(fs[k]), fields_strings(fs, k + 1), 0);
    }
}

proof fn lemma_schemas_decided(ss: Seq<InputSchema>, k: int)
    ensures
        decided_by(schemas_ir(ss, k), first_unparsed(schemas_strings(ss, k), 0)),
    decreases ss.len() - k,
{
    if 0 <= k < ss.len() {
        lemma_fields_decided(ss[k].fields@, 0);
        lemma_schemas_decided(ss, k + 1);
        lemma_first_unparsed_add(fields_strings(ss[k].fields@, 0), schemas_strings(ss, k + 1), 0);
    }
}

/// Converting a schema file succeeds exactly when every type string in it
/// parses. Otherwise the first type string, in depth-first order (schemas,
/// then fields, then inline members), that does not parse decides: its
/// parse error is the error, or it is an input on which parsing panics.
pub proof fn law_into_ir_fails_at_first_bad_type(f: InputSchemaFile)
    ensures
        (file_ir_result(f) is Ok) <==> (forall|k: int|
            0 <= k < schemas_strings(f.schemas@, 0).len() ==> #[trigger] parse_type(
                schemas_strings(f.schemas@, 0)[k],
            ) is Done),
        match first_unparsed(schemas_strings(f.schemas@, 0), 0) {
            None => file_ir_result(f) is Ok,
            Some(Outcome::Fail(m)) => file_ir_result(f) == Err::<Seq<SpecSchema>, SpecError>(
                SpecError::InvalidType(m),
            ),
            Some(_) => schemas_ir(f.schemas@, 0) is Abort,
        },
{
    let strs = schemas_strings(f.schemas@, 0);
    lemma_schemas_decided(f.schemas@, 0);
    lemma_first_unparsed_none(strs, 0);
}

proof fn lemma_first_unparsed_none(strs: Seq<Seq<char>>, i: int)
    requires
        0 <= i <= strs.len(),
    ensures
        first_unparsed(strs, i) is None <==> forall|k: int|
            i <= k < strs.len() ==> #[trigger] parse_type(strs[k]) is Done,
    decreases strs.len() - i,
{
    if i < strs.len() {
        lemma_first_unparsed_none(strs, i + 1);
    }
}

} // verus!
