//! The output of the generators: the sequence of writer operations
//! (lines, blank lines, `header {` ... `}` blocks, indentation changes)
//! that render the generated Rust source, plus identifier helpers.
use vstd::prelude::*;

use crate::text::str_eq;

verus! {

/// One operation on a code writer.
#[derive(Debug)]
pub enum CodeOp {
    /// A line of code at the current indentation.
    Line(String),
    /// An empty line.
    Blank,
    /// `header {`, after which the indentation grows by one level.
    Open(String),
    /// The indentation shrinks by one level, then `}`.
    Close,
    /// The indentation grows by one level.
    Indent,
    /// The indentation shrinks by one level.
    Dedent,
}

/// The model of a `CodeOp`.
pub enum SpecOp {
    Line(Seq<char>),
    Blank,
    Open(Seq<char>),
    Close,
    Indent,
    Dedent,
}

impl View for CodeOp {
    type V = SpecOp;

    open spec fn view(&self) -> SpecOp {
        match self {
            CodeOp::Line(s) => SpecOp::Line(s@),
            CodeOp::Blank => SpecOp::Blank,
            CodeOp::Open(s) => SpecOp::Open(s@),
            CodeOp::Close => SpecOp::Close,
            CodeOp::Indent => SpecOp::Indent,
            CodeOp::Dedent => SpecOp::Dedent,
        }
    }
}

/// A recording of the operations a generator performs on a code writer,
/// in order.
pub struct CodePlan {
    ops: Vec<CodeOp>,
}

impl View for CodePlan {
    type V = Seq<SpecOp>;

    closed spec fn view(&self) -> Seq<SpecOp> {
        self.ops@.map_values(|o: CodeOp| o@)
    }
}

pub open spec fn line(s: Seq<char>) -> SpecOp {
    SpecOp::Line(s)
}

pub open spec fn open(s: Seq<char>) -> SpecOp {
    SpecOp::Open(s)
}

impl CodePlan {
    /// An empty plan.
    pub fn new() -> (r: CodePlan)
        ensures
            r@ == Seq::<SpecOp>::empty(),
    {
        let r = CodePlan { ops: Vec::new() };
        assert(r@ =~= Seq::<SpecOp>::empty());
        r
    }

    fn push(&mut self, op: CodeOp)
        ensures
            final(self)@ == old(self)@.push(op@),
    {
        self.ops.push(op);
        assert(self@ =~= old(self)@.push(op@));
    }

    /// Write a line.
    pub fn line(&mut self, s: &str)
        ensures
            final(self)@ == old(self)@.push(line(s@)),
    {
        self.push(CodeOp::Line(s.to_owned()));
    }

    /// Write an owned line.
    pub fn line_string(&mut self, s: String)
        ensures
            final(self)@ == old(self)@.push(line(s@)),
    {
        self.push(CodeOp::Line(s));
    }

    /// Write an empty line.
    pub fn blank(&mut self)
        ensures
            final(self)@ == old(self)@.push(SpecOp::Blank),
    {
        self.push(CodeOp::Blank);
    }

    /// Open a block: `header {`.
    pub fn open(&mut self, header: &str)
        ensures
            final(self)@ == old(self)@.push(open(header@)),
    {
        self.push(CodeOp::Open(header.to_owned()));
    }

    /// Open a block with an owned header.
    pub fn open_string(&mut self, header: String)
        ensures
            final(self)@ == old(self)@.push(open(header@)),
    {
        self.push(CodeOp::Open(header));
    }

    /// Close the innermost block: `}`.
    pub fn close(&mut self)
        ensures
            final(self)@ == old(self)@.push(SpecOp::Close),
    {
        self.push(CodeOp::Close);
    }

    /// Increase the indentation.
    pub fn indent(&mut self)
        ensures
            final(self)@ == old(self)@.push(SpecOp::Indent),
    {
        self.push(CodeOp::Indent);
    }

    /// Decrease the indentation.
    pub fn dedent(&mut self)
        ensures
            final(self)@ == old(self)@.push(SpecOp::Dedent),
    {
        self.push(CodeOp::Dedent);
    }

    /// The operations recorded so far.
    pub fn ops(&self) -> (r: &Vec<CodeOp>)
        ensures
            r@.map_values(|o: CodeOp| o@) == self@,
    {
        &self.ops
    }
}

// ---------------------------------------------------------------------------
// Nesting
// ---------------------------------------------------------------------------

/// How an operation changes the block depth.
pub open spec fn block_step(o: SpecOp) -> int {
    match o {
        SpecOp::Open(_) => 1,
        SpecOp::Close => -1,
        _ => 0,
    }
}

/// How an operation changes the indentation.
pub open spec fn indent_step(o: SpecOp) -> int {
    match o {
        SpecOp::Indent => 1,
        SpecOp::Dedent => -1,
        _ => 0,
    }
}

/// Writing `ops` from block depth `b` and indentation `i`: the depth and
/// indentation at the end, or `None` when a block is closed, or the
/// indentation decreased, below zero on the way.
pub open spec fn runs(ops: Seq<SpecOp>, b: int, i: int) -> Option<(int, int)>
    decreases ops.len(),
{
    if ops.len() == 0 {
        Some((b, i))
    } else {
        let b1 = b + block_step(ops[0]);
        let i1 = i + indent_step(ops[0]);
        if b1 < 0 || i1 < 0 {
            None
        } else {
            runs(ops.drop_first(), b1, i1)
        }
    }
}

/// Every block that `ops` open they close, every indentation they add they
/// take back, and neither goes below where it started.
pub open spec fn well_nested(ops: Seq<SpecOp>) -> bool {
    runs(ops, 0, 0) == Some((0int, 0int))
}

/// Writing two runs of operations one after the other.
pub proof fn lemma_runs_add(x: Seq<SpecOp>, y: Seq<SpecOp>, b: int, i: int)
    ensures
        runs(x + y, b, i) == (match runs(x, b, i) {
            Some((b2, i2)) => runs(y, b2, i2),
            None => None,
        }),
    decreases x.len(),
{
    if x.len() == 0 {
        assert(x + y =~= y);
    } else {
        assert((x + y)[0] == x[0]);
        assert((x + y).drop_first() =~= x.drop_first() + y);
        lemma_runs_add(x.drop_first(), y, b + block_step(x[0]), i + indent_step(x[0]));
    }
}

/// A well-nested run starting deeper ends as deep as it started.
pub proof fn lemma_runs_shift(x: Seq<SpecOp>, b: int, i: int, db: int, di: int)
    requires
        db >= 0,
        di >= 0,
        runs(x, b, i) is Some,
    ensures
        runs(x, b + db, i + di) == (match runs(x, b, i) {
            Some((p, q)) => Some((p + db, q + di)),
            None => None,
        }),
    decreases x.len(),
{
    if x.len() > 0 {
        lemma_runs_shift(x.drop_first(), b + block_step(x[0]), i + indent_step(x[0]), db, di);
    }
}

/// Lines and blank lines leave the depth and indentation as they are.
pub proof fn lemma_runs_flat(x: Seq<SpecOp>, b: int, i: int)
    requires
        b >= 0,
        i >= 0,
        forall|k: int| 0 <= k < x.len() ==> (#[trigger] x[k] is Line || x[k] is Blank),
    ensures
        runs(x, b, i) == Some((b, i)),
    decreases x.len(),
{
    if x.len() > 0 {
        assert forall|k: int| 0 <= k < x.drop_first().len() implies (#[trigger] x.drop_first()[k] is Line
            || x.drop_first()[k] is Blank) by {
            assert(x.drop_first()[k] == x[k + 1]);
        }
        assert(x[0] is Line || x[0] is Blank);
        assert(block_step(x[0]) == 0 && indent_step(x[0]) == 0);
        lemma_runs_flat(x.drop_first(), b, i);
    }
}

// ---------------------------------------------------------------------------
// Identifiers
// ---------------------------------------------------------------------------

/// Rust's strict and reserved keywords.
pub open spec fn is_keyword(s: Seq<char>) -> bool {
    ||| s == "as"@ ||| s == "break"@ ||| s == "const"@ ||| s == "continue"@
    ||| s == "crate"@ ||| s == "else"@ ||| s == "enum"@ ||| s == "extern"@
    ||| s == "false"@ ||| s == "fn"@ ||| s == "for"@ ||| s == "if"@
    ||| s == "impl"@ ||| s == "in"@ ||| s == "let"@ ||| s == "loop"@
    ||| s == "match"@ ||| s == "mod"@ ||| s == "move"@ ||| s == "mut"@
    ||| s == "pub"@ ||| s == "ref"@ ||| s == "return"@ ||| s == "self"@
    ||| s == "Self"@ ||| s == "static"@ ||| s == "struct"@ ||| s == "super"@
    ||| s == "trait"@ ||| s == "true"@ ||| s == "type"@ ||| s == "unsafe"@
    ||| s == "use"@ ||| s == "where"@ ||| s == "while"@ ||| s == "async"@
    ||| s == "await"@ ||| s == "dyn"@ ||| s == "abstract"@ ||| s == "become"@
    ||| s == "box"@ ||| s == "do"@ ||| s == "final"@ ||| s == "macro"@
    ||| s == "override"@ ||| s == "priv"@ ||| s == "typeof"@ ||| s == "unsized"@
    ||| s == "virtual"@ ||| s == "yield"@ ||| s == "try"@
}

/// The Rust identifier for a field: its name, with `_` appended when the
/// name is a keyword.
pub open spec fn ident(name: Seq<char>) -> Seq<char> {
    if is_keyword(name) {
        name + "_"@
    } else {
        name
    }
}

/// A field identifier that the generators write is never a Rust keyword.
pub proof fn law_field_ident_not_keyword(name: Seq<char>)
    ensures
        !is_keyword(ident(name)),
{
    if is_keyword(name) {
        let id = name + "_"@;
        reveal_strlit("_");
        assert(id[id.len() - 1] == '_');
        reveal_strlit("as");
        reveal_strlit("break");
        reveal_strlit("const");
        reveal_strlit("continue");
        reveal_strlit("crate");
        reveal_strlit("else");
        reveal_strlit("enum");
        reveal_strlit("extern");
        reveal_strlit("false");
        reveal_strlit("fn");
        reveal_strlit("for");
        reveal_strlit("if");
        reveal_strlit("impl");
        reveal_strlit("in");
        reveal_strlit("let");
        reveal_strlit("loop");
        reveal_strlit("match");
        reveal_strlit("mod");
        reveal_strlit("move");
        reveal_strlit("mut");
        reveal_strlit("pub");
        reveal_strlit("ref");
        reveal_strlit("return");
        reveal_strlit("self");
        reveal_strlit("Self");
        reveal_strlit("static");
        reveal_strlit("struct");
        reveal_strlit("super");
        reveal_strlit("trait");
        reveal_strlit("true");
        reveal_strlit("type");
        reveal_strlit("unsafe");
        reveal_strlit("use");
        reveal_strlit("where");
        reveal_strlit("while");
        reveal_strlit("async");
        reveal_strlit("await");
        reveal_strlit("dyn");
        reveal_strlit("abstract");
        reveal_strlit("become");
        reveal_strlit("box");
        reveal_strlit("do");
        reveal_strlit("final");
        reveal_strlit("macro");
        reveal_strlit("override");
        reveal_strlit("priv");
        reveal_strlit("typeof");
        reveal_strlit("unsized");
        reveal_strlit("virtual");
        reveal_strlit("yield");
        reveal_strlit("try");
    }
}

fn keyword(s: &str) -> (r: bool)
    ensures
        r == is_keyword(s@),
{
    str_eq(s, "as") || str_eq(s, "break") || str_eq(s, "const") || str_eq(s, "continue")
        || str_eq(s, "crate") || str_eq(s, "else") || str_eq(s, "enum") || str_eq(s, "extern")
        || str_eq(s, "false") || str_eq(s, "fn") || str_eq(s, "for") || str_eq(s, "if")
        || str_eq(s, "impl") || str_eq(s, "in") || str_eq(s, "let") || str_eq(s, "loop")
        || str_eq(s, "match") || str_eq(s, "mod") || str_eq(s, "move") || str_eq(s, "mut")
        || str_eq(s, "pub") || str_eq(s, "ref") || str_eq(s, "return") || str_eq(s, "self")
        || str_eq(s, "Self") || str_eq(s, "static") || str_eq(s, "struct") || str_eq(s, "super")
        || str_eq(s, "trait") || str_eq(s, "true") || str_eq(s, "type") || str_eq(s, "unsafe")
        || str_eq(s, "use") || str_eq(s, "where") || str_eq(s, "while") || str_eq(s, "async")
        || str_eq(s, "await") || str_eq(s, "dyn") || str_eq(s, "abstract") || str_eq(s, "become")
        || str_eq(s, "box") || str_eq(s, "do") || str_eq(s, "final") || str_eq(s, "macro")
        || str_eq(s, "override") || str_eq(s, "priv") || str_eq(s, "typeof") || str_eq(
        s,
        "unsized",
    ) || str_eq(s, "virtual") || str_eq(s, "yield") || str_eq(s, "try")
}

/// The Rust identifier for a field name (keywords get a trailing `_`).
pub fn rust_field_ident(name: &str) -> (r: String)
    ensures
        r@ == ident(name@),
{
    if keyword(name) {
        crate::text::str2(name, "_")
    } else {
        name.to_owned()
    }
}

/// The name that `heck` gives a string in UpperCamelCase.
pub uninterp spec fn pascal_case(s: Seq<char>) -> Seq<char>;

/// The name that `heck` gives a string in snake_case.
pub uninterp spec fn snake_case(s: Seq<char>) -> Seq<char>;

/// `heck::ToPascalCase::to_pascal_case`: the UpperCamelCase form of `s`.
/// Its result depends on `s` alone; nothing else is claimed of it.
#[verifier::external_body]
pub(crate) fn to_pascal_case(s: &str) -> (r: String)
    ensures
        r@ == pascal_case(s@),
{
    heck::ToPascalCase::to_pascal_case(s)
}

/// `heck::AsSnakeCase` through `Display`: the snake_case form of `s`.
/// Its result depends on `s` alone; nothing else is claimed of it.
#[verifier::external_body]
fn to_snake_case(s: &str) -> (r: String)
    ensures
        r@ == snake_case(s@),
{
    heck::AsSnakeCase(s).to_string()
}

/// The file that the code generated for a schema is written to.
pub fn rust_file_name(schema_name: &str) -> (r: String)
    ensures
        r@ == snake_case(schema_name@) + ".rs"@,
{
    let mut r = to_snake_case(schema_name);
    r.append(".rs");
    r
}

} // verus!
