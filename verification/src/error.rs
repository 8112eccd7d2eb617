use vstd::prelude::*;

verus! {

/// The ways the analysis of a method declaration can fail. Every failure
/// aborts construction entirely: no partial description is ever produced.
#[derive(Clone, Copy, Debug, PartialEq, Eq, Structural)]
pub enum ErrorKind {
    /// The declaration is asynchronous, has a binary calling interface,
    /// is generic, or is variadic.
    StructuralViolation,
    /// A recognized directive attribute carries a payload that does not
    /// parse into a serialization format.
    MalformedDirective,
    /// A typed parameter cannot be classified.
    MalformedParameter,
    /// The regular input arguments mix serialization formats.
    SerializerFormatConflict,
}

/// A fatal analysis failure: the kind of failure together with a message
/// meant for the developer authoring the contract method.
#[derive(Debug)]
pub struct AnalysisError {
    pub kind: ErrorKind,
    pub message: String,
}

impl AnalysisError {
    pub fn new(kind: ErrorKind, message: &str) -> (r: AnalysisError)
        ensures
            r.kind == kind,
            r.message@ == message@,
    {
        AnalysisError { kind, message: message.to_owned() }
    }
}

} // verus!
