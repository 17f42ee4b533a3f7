//! Errors reported by the decoder.

use vstd::prelude::*;

verus! {

/// What went wrong while decoding.
#[derive(Debug, PartialEq, Eq, Structural, Clone, Copy)]
pub enum ErrorKind {
    /// The buffer ended before the bytes that the format asks for.
    Fatal,
    /// The bytes are there, but they break a rule of the format.
    Invalid,
}

/// A decoding error: its kind and the step that met it.
#[derive(Debug)]
pub struct Error {
    /// The decoding step that failed.
    pub context: &'static str,
    /// The kind of failure.
    pub kind: ErrorKind,
}

/// The error of kind `kind` met at the step `step`.
pub open spec fn spec_context(step: &'static str, kind: ErrorKind) -> Error {
    Error { context: step, kind }
}

/// Names the step at which a read failed with `kind`.
#[verifier::when_used_as_spec(spec_context)]
pub fn context(step: &'static str, kind: ErrorKind) -> (error: Error)
    ensures
        error == spec_context(step, kind),
{
    Error { context: step, kind }
}

} // verus!
