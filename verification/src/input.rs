//! Resolution of the input source from the two ways the caller can name one.

use vstd::prelude::*;
use crate::FlatError;

verus! {

/// Where the text to flatten comes from. Resolved once per invocation and
/// never changed.
#[derive(Debug, Clone, PartialEq, Eq)]
pub enum InputSource {
    /// Read the standard input stream until its end, then trim trailing
    /// whitespace.
    StdIn,
    /// Read the named file verbatim.
    File(String),
    /// Use the given text as it stands.
    Literal(String),
}

/// Picks the one input source: a file path when one is given, else the
/// literal text when one is given, else the standard input stream. Giving
/// both a file and a literal is rejected.
pub fn resolve_input(file: Option<String>, literal: Option<String>) -> (r: Result<
    InputSource,
    FlatError,
>)
    ensures
        file is Some && literal is Some ==> r == Err::<InputSource, FlatError>(
            FlatError::ConflictingInputs,
        ),
        literal is None ==> (file matches Some(p) ==> r == Ok::<InputSource, FlatError>(
            InputSource::File(p),
        )),
        file is None ==> (literal matches Some(s) ==> r == Ok::<InputSource, FlatError>(
            InputSource::Literal(s),
        )),
        file is None && literal is None ==> r == Ok::<InputSource, FlatError>(
            InputSource::StdIn,
        ),
{
    match (file, literal) {
        (Some(_), Some(_)) => Err(FlatError::ConflictingInputs),
        (Some(p), None) => Ok(InputSource::File(p)),
        (None, Some(s)) => Ok(InputSource::Literal(s)),
        (None, None) => Ok(InputSource::StdIn),
    }
}

} // verus!
