//! Conversion engine for Python package build metadata.
//!
//! The library models three build-specification shapes — a flat requirement
//! list, a `setup`-call build script, and a two-section project table — and
//! provides verified translation among them, together with a literal-expression
//! resolver that extracts a script specification from a restricted abstract
//! syntax tree.
//!
//! File input/output, source-text parsing and the textual encoding of the
//! project table are left to unverified callers; the library works on plain
//! in-memory values.
use vstd::prelude::*;

pub mod ast;
pub mod generators;
pub mod parsers;
pub mod specs;
pub mod strutil;
pub mod symbols;
pub mod tables;

verus! {

/// The three recognized build-specification file kinds.
#[derive(Clone, Copy, PartialEq, Eq, Structural, Debug)]
pub enum PyBuildSpec {
    Requirements,
    Setup,
    PyProject,
}

/// How an operation on build specifications fails. Absence of an optional
/// field is never an error; only a malformed occupied field is.
#[derive(Debug, PartialEq, Eq, Clone)]
pub enum SpecError {
    /// The file name matches none of the recognized kinds.
    UnrecognizedFileName,
    /// Source text could not be parsed or decoded into the expected shape;
    /// raised by the unverified reading layer, carried here for callers.
    MalformedSource(String),
    /// A recognized field's expression could not be resolved to its expected
    /// type; carries the offending keyword or entry.
    Resolution(String),
    /// The requested source/destination pair is not a supported conversion.
    UnsupportedConversion,
}

impl SpecError {
    /// A human-readable description of the failure.
    pub fn message(&self) -> (r: String)
        ensures
            match self {
                SpecError::UnrecognizedFileName => r@ == (
                "failed to recognize the file name: expected requirements.txt, setup.py or pyproject.toml"
                )@,
                SpecError::MalformedSource(detail) => r@ == "failed to parse the source: "@
                    + detail@,
                SpecError::Resolution(detail) => r@ == "failed to resolve an expression: "@
                    + detail@,
                SpecError::UnsupportedConversion => r@ == (
                "unsupported conversion: only pairwise translations between requirements.txt, setup.py and pyproject.toml are allowed"
                )@,
            },
    {
        match self {
            SpecError::UnrecognizedFileName => String::from_str(
                "failed to recognize the file name: expected requirements.txt, setup.py or pyproject.toml",
            ),
            SpecError::MalformedSource(detail) => String::from_str(
                "failed to parse the source: ",
            ).concat(detail.as_str()),
            SpecError::Resolution(detail) => String::from_str(
                "failed to resolve an expression: ",
            ).concat(detail.as_str()),
            SpecError::UnsupportedConversion => String::from_str(
                "unsupported conversion: only pairwise translations between requirements.txt, setup.py and pyproject.toml are allowed",
            ),
        }
    }
}

/// The build-specification kind a file name denotes, if any.
pub open spec fn spec_kind_of_name(name: Seq<char>) -> Option<PyBuildSpec> {
    if name == "requirements.txt"@ {
        Some(PyBuildSpec::Requirements)
    } else if name == "setup.py"@ {
        Some(PyBuildSpec::Setup)
    } else if name == "pyproject.toml"@ {
        Some(PyBuildSpec::PyProject)
    } else {
        None
    }
}

/// Recognizes a build-specification file by its file name (the final path
/// component), and rejects every other name.
pub fn get_spec_type(file_name: &str) -> (r: Result<PyBuildSpec, SpecError>)
    ensures
        match spec_kind_of_name(file_name@) {
            Some(k) => r == Ok::<PyBuildSpec, SpecError>(k),
            None => r == Err::<PyBuildSpec, SpecError>(SpecError::UnrecognizedFileName),
        },
{
    if strutil::str_eq(file_name, "requirements.txt") {
        Ok(PyBuildSpec::Requirements)
    } else if strutil::str_eq(file_name, "setup.py") {
        Ok(PyBuildSpec::Setup)
    } else if strutil::str_eq(file_name, "pyproject.toml") {
        Ok(PyBuildSpec::PyProject)
    } else {
        Err(SpecError::UnrecognizedFileName)
    }
}

/// Whether the requested conversion is supported: exactly the pairwise
/// conversions between two distinct kinds are.
pub fn conversion_supported(source: &PyBuildSpec, dest: &PyBuildSpec) -> (r: bool)
    ensures
        r == (source != dest),
{
    !(source == dest)
}

} // verus!
