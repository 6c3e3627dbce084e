//! Separator patterns: a compiled regular expression together with its
//! pattern text, and the split it induces on a haystack.
//!
//! The regular-expression engine itself comes from the `regex` crate; this
//! module holds the trusted boundary around it. What a pattern accepts and
//! where it matches are not restated here: the compiled result and the full
//! split are given names, and everything downstream is proved against them.

use vstd::prelude::*;
use crate::FlatError;

verus! {

#[verifier::external_type_specification]
#[verifier::external_body]
pub struct ExRegex(regex::Regex);

#[verifier::external_type_specification]
#[verifier::external_body]
pub struct ExRegexError(regex::Error);

/// Whether `regex::Regex::new` accepts a pattern text. Compilation is
/// deterministic in the pattern, so this is a function of the text alone.
pub uninterp spec fn regex_accepts(p: Seq<char>) -> bool;

/// The substrings that `regex::Regex::split` yields for a pattern and a
/// haystack: the parts of the haystack between successive non-overlapping
/// matches, empty parts retained, in order. Deterministic in the pair.
pub uninterp spec fn regex_split_of(p: Seq<char>, t: Seq<char>) -> Seq<Seq<char>>;

/// Relies on regex::Regex::new: compiles the pattern or reports why it is
/// not a valid regular expression; deterministic in the pattern text.
#[verifier::external_body]
fn regex_compile(p: &str) -> (r: Result<regex::Regex, regex::Error>)
    ensures
        r is Ok <==> regex_accepts(p@),
{
    regex::Regex::new(p)
}

/// A compiled separator pattern, paired with the text it was compiled from.
/// The only way to obtain one is [`Pattern::new`], so the two always agree.
pub struct Pattern {
    re: regex::Regex,
    text: String,
}

impl View for Pattern {
    type V = Seq<char>;

    closed spec fn view(&self) -> Seq<char> {
        self.text@
    }
}

impl Pattern {
    /// Compiles a separator pattern, reporting an invalid one as
    /// [`FlatError::InvalidPattern`].
    pub fn new(p: &str) -> (r: Result<Pattern, FlatError>)
        ensures
            r is Ok <==> regex_accepts(p@),
            r matches Ok(pt) ==> pt@ == p@,
            r is Err ==> r == Err::<Pattern, FlatError>(FlatError::InvalidPattern),
    {
        match regex_compile(p) {
            Ok(re) => Ok(Pattern { re, text: p.to_owned() }),
            Err(_) => Err(FlatError::InvalidPattern),
        }
    }

    /// The pattern text this pattern was compiled from.
    pub fn text(&self) -> (r: &str)
        ensures
            r@ == self@,
    {
        self.text.as_str()
    }

    /// Relies on regex::Regex::split: yields the parts of the haystack
    /// between successive matches, the remainder last, so at least one part
    /// always comes back.
    #[verifier::external_body]
    pub fn split(&self, text: &str) -> (r: Vec<String>)
        ensures
            r.deep_view() == regex_split_of(self@, text@),
            r@.len() >= 1,
    {
        self.re.split(text).map(|part| part.to_string()).collect()
    }
}

} // verus!
