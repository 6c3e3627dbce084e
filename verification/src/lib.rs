//! A line flattener: resolves an input source, optionally splits the text at
//! matches of a regular expression, removes the platform newline from every
//! segment, and renders the segments one per line, with the trailing newline
//! suppressed on request.

use vstd::prelude::*;

pub mod input;
pub mod pattern;
pub mod pipeline;
pub mod render;
pub mod segment;
pub mod text;

verus! {

/// The errors this library reports. Every other failure of the surrounding
/// program (an unreadable file, for instance) is fatal before the library
/// is ever reached.
#[derive(Clone, Copy, Debug, PartialEq, Eq, Structural)]
pub enum FlatError {
    /// A file source and a literal source were both supplied.
    ConflictingInputs,
    /// The separator pattern does not compile as a regular expression.
    InvalidPattern,
}

impl FlatError {
    /// A fixed description of the error, fit for printing on standard error.
    pub fn message(&self) -> (r: &'static str)
        ensures
            self is ConflictingInputs ==> r@ == "a file and a literal string cannot both be given"@,
            self is InvalidPattern ==> r@ == "could not compile regex"@,
    {
        match self {
            FlatError::ConflictingInputs => "a file and a literal string cannot both be given",
            FlatError::InvalidPattern => "could not compile regex",
        }
    }
}

} // verus!
