use vstd::prelude::*;

verus! {

/// Errors that can occur during code generation.
#[derive(Debug, Clone, PartialEq, Eq)]
pub enum CodeGenError {
    /// No document identifier can be derived from a source path.
    InvalidSourcePath,
    /// The project manifest does not exist.
    MissingManifest,
    /// The project manifest is not valid JSON.
    InvalidJson,
    /// The project manifest's top level is not a JSON object.
    NotAnObject,
    /// Reading or writing a file failed; the text names the path and the cause.
    Io(String),
}

} // verus!
