# arrowc

An Arrow schema compiler. A schema file (JSON or YAML) describes record
batches: schemas with named, typed, nullable fields, where a type is written
as a type string such as `int32`, `timestamp[us, UTC]`, `list<utf8>`,
`decimal128(10, 2)`, `map<utf8, int32>` or `struct<name: utf8, qty: int32>`,
or as an inline struct. The compiler validates the schemas and generates, for
each one, Rust code: companion structs for nested structs, a `{Name}Schema`,
a typed `{Name}Builder` and a typed `{Name}Reader`.

The library is written in Verus. Its functions are verified against their
contracts, except a few small wrappers around standard-library and `heck`
calls (whitespace test, integer parsing and printing, file extensions, case
conversion) and the declaration of std's I/O error type, whose contracts
are trusted and stated in their doc comments.

## Layout

- `src/text.rs` — characters of a string, trimming, searching, integer
  parsing and printing.
- `src/arrow_type.rs`, `src/schema_def.rs`, `src/error.rs` — the IR (Arrow
  types, fields, schemas, schema files), their models and printed forms.
- `src/type_spec.rs` — what parsing a type string means, on character
  sequences, with every error message; `src/type_parser.rs` — the parser
  that computes it; `src/roundtrip.rs` — printing a type and parsing it back
  gives the type again, for every type that prints in full (no struct or
  union, and timezones that fit where they stand).
- `src/input.rs` — the schema file as written by users and its conversion to
  the IR.
- `src/validate.rs` — validation, and the proof that it accepts exactly the
  valid files.
- `src/codegen/` — the Rust generators. They record the writer operations
  (`CodePlan`) that render the generated file; `nesting.rs` proves that what
  they write is well nested.
- `src/compiler.rs` — choosing the input format and compiling a loaded file.
- `app/` — the command-line program: argument handling, reading JSON and YAML
  with serde, rendering the plans and writing the files.
- `tests/` — tests of the library.
