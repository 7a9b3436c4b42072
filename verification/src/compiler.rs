//! The schema compiler: from a loaded schema file to the generated files,
//! and the choice of input format.
use vstd::prelude::*;

use crate::codegen::plan::{CodePlan, snake_case};
use crate::codegen::{codegen_ok, generate_rust, rust_file_ops};
use crate::error::SchemaError;
use crate::schema_def::ArrowSchemaFile;
use crate::text::{str3, str_eq};
use crate::validate::{validate, validation_result};

verus! {

/// `std::io::Error`, carried through `CompileError::Io`.
#[verifier::external_type_specification]
#[verifier::external_body]
pub struct ExIoError(std::io::Error);

/// What went wrong while compiling a schema file.
#[derive(Debug)]
pub enum CompileError {
    Io(std::io::Error),
    Schema(SchemaError),
    Other(String),
}

/// Supported input formats.
#[derive(Debug, Clone, Copy, PartialEq, Eq, Structural)]
pub enum InputFormat {
    Json,
    Yaml,
}

/// The extension of a path, as `std::path::Path::extension` gives it, when
/// it is valid UTF-8.
pub uninterp spec fn path_extension(path: Seq<char>) -> Option<Seq<char>>;

/// `std::path::Path::extension` on `path`, then `OsStr::to_str`. The result
/// depends on `path` alone; nothing else is claimed of it.
#[verifier::external_body]
fn extension_of(path: &str) -> (r: Option<&str>)
    ensures
        match r {
            Some(e) => path_extension(path@) == Some(e@),
            None => path_extension(path@) is None,
        },
{
    std::path::Path::new(path).extension().and_then(|e| e.to_str())
}

/// The format that a file extension names.
pub open spec fn format_of_extension(ext: Option<Seq<char>>) -> Option<InputFormat> {
    match ext {
        Some(e) => if e == "json"@ {
            Some(InputFormat::Json)
        } else if e == "yaml"@ || e == "yml"@ {
            Some(InputFormat::Yaml)
        } else {
            None
        },
        None => None,
    }
}

/// The format that a file extension names: `json`, or `yaml` and `yml`.
pub fn format_from_extension(ext: Option<&str>) -> (r: Option<InputFormat>)
    ensures
        r == format_of_extension(
            match ext {
                Some(e) => Some(e@),
                None => None,
            },
        ),
{
    match ext {
        Some(e) => {
            if str_eq(e, "json") {
                Some(InputFormat::Json)
            } else if str_eq(e, "yaml") || str_eq(e, "yml") {
                Some(InputFormat::Yaml)
            } else {
                None
            }
        },
        None => None,
    }
}

/// Detect input format from file extension, or return None.
pub fn detect_format(path: &str) -> (r: Option<InputFormat>)
    ensures
        r == format_of_extension(path_extension(path@)),
{
    format_from_extension(extension_of(path))
}

/// The format named on the command line: `json`, or `yaml` and `yml`.
pub open spec fn format_name(s: Seq<char>) -> Result<InputFormat, Seq<char>> {
    if s == "json"@ {
        Ok(InputFormat::Json)
    } else if s == "yaml"@ || s == "yml"@ {
        Ok(InputFormat::Yaml)
    } else {
        Err("unknown format: "@ + s + " (expected json or yaml)"@)
    }
}

/// Parse the name of an input format.
pub fn parse_format(s: &str) -> (r: Result<InputFormat, String>)
    ensures
        match r {
            Ok(f) => format_name(s@) == Ok::<InputFormat, Seq<char>>(f),
            Err(m) => format_name(s@) == Err::<InputFormat, Seq<char>>(m@),
        },
{
    if str_eq(s, "json") {
        Ok(InputFormat::Json)
    } else if str_eq(s, "yaml") || str_eq(s, "yml") {
        Ok(InputFormat::Yaml)
    } else {
        Err(str3("unknown format: ", s, " (expected json or yaml)"))
    }
}

/// The message when no format is given and the path's extension names none.
pub open spec fn undetected_message(path: Seq<char>) -> Seq<char> {
    "cannot detect format for '"@ + path + "', use --format"@
}

/// The format to read a file in: the one given, else the one its extension
/// names.
pub fn resolve_format(format: Option<InputFormat>, input_path: &str) -> (r: Result<
    InputFormat,
    CompileError,
>)
    ensures
        match format {
            Some(f) => r matches Ok(g) && g == f,
            None => match format_of_extension(path_extension(input_path@)) {
                Some(f) => r matches Ok(g) && g == f,
                None => r matches Err(CompileError::Other(m)) && m@ == undetected_message(
                    input_path@,
                ),
            },
        },
{
    match format {
        Some(f) => Ok(f),
        None => match detect_format(input_path) {
            Some(f) => Ok(f),
            None => Err(
                CompileError::Other(
                    str3("cannot detect format for '", input_path, "', use --format"),
                ),
            ),
        },
    }
}

/// Validate a loaded schema file, then generate the Rust file of each
/// schema: its name and what it holds.
pub fn compile_file(file: &ArrowSchemaFile) -> (r: Result<Vec<(String, CodePlan)>, CompileError>)
    requires
        validation_result(file@) is Ok ==> forall|i: int|
            0 <= i < file@.len() ==> codegen_ok(#[trigger] file@[i]),
    ensures
        match validation_result(file@) {
            Err(e) => r matches Err(CompileError::Schema(x)) && x@ == e,
            Ok(()) => r matches Ok(files) && files@.len() == file@.len() && forall|i: int|
                0 <= i < file@.len() ==> {
                    &&& (#[trigger] files@[i]).0@ == snake_case(file@[i].name) + ".rs"@
                    &&& files@[i].1@ == rust_file_ops(file@[i])
                },
        },
{
    match validate(file) {
        Err(e) => Err(CompileError::Schema(e)),
        Ok(()) => Ok(generate_rust(file)),
    }
}

} // verus!
