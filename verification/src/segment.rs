//! Splitting the raw text into segments and normalizing each one.

use vstd::prelude::*;
use crate::pattern::{regex_split_of, Pattern};
use crate::text::{strip_newlines, strip_newlines_spec};

verus! {

/// The view of an optional separator pattern: its pattern text, if any.
pub open spec fn pattern_view(p: Option<&Pattern>) -> Option<Seq<char>> {
    match p {
        Some(pt) => Some(pt@),
        None => None,
    }
}

/// The segments of a text: the whole text alone when no separator is given,
/// otherwise the parts between the separator's matches.
pub open spec fn segments_spec(t: Seq<char>, p: Option<Seq<char>>) -> Seq<Seq<char>> {
    match p {
        Some(pat) => regex_split_of(pat, t),
        None => seq![t],
    }
}

/// Every segment with the platform newline removed, order and count kept.
pub open spec fn normalize_all_spec(segs: Seq<Seq<char>>) -> Seq<Seq<char>> {
    segs.map_values(|s: Seq<char>| strip_newlines_spec(s))
}

/// Splits the text at every match of the separator, or returns it whole when
/// no separator is given. At least one segment always comes back.
pub fn segment(text: &str, pattern: Option<&Pattern>) -> (r: Vec<String>)
    ensures
        r.deep_view() == segments_spec(text@, pattern_view(pattern)),
        r@.len() >= 1,
{
    match pattern {
        Some(pt) => {
            let parts = pt.split(text);
            proof {
                assert(parts.deep_view().len() == parts@.len());
            }
            parts
        },
        None => {
            let mut whole: Vec<String> = Vec::new();
            whole.push(text.to_owned());
            proof {
                assert(whole.deep_view() =~= seq![text@]);
            }
            whole
        },
    }
}

/// Removes the platform newline from every segment, keeping order and count.
pub fn normalize_segments(segs: &Vec<String>) -> (r: Vec<String>)
    ensures
        r.deep_view() == normalize_all_spec(segs.deep_view()),
        r@.len() == segs@.len(),
{
    let mut out: Vec<String> = Vec::new();
    let mut i: usize = 0;
    while i < segs.len()
        invariant
            i <= segs@.len(),
            out@.len() == i,
            forall|j: int| 0 <= j < i ==> out.deep_view()[j] == strip_newlines_spec(
                segs.deep_view()[j],
            ),
        decreases segs@.len() - i,
    {
        let ghost prev = out;
        let cleaned = strip_newlines(segs[i].as_str());
        out.push(cleaned);
        proof {
            assert(segs.deep_view()[i as int] == segs@[i as int]@);
            assert forall|j: int| 0 <= j < i + 1 implies out.deep_view()[j]
                == strip_newlines_spec(segs.deep_view()[j]) by {
                assert(out.deep_view()[j] == out@[j]@);
                if j < i {
                    assert(out@[j] == prev@[j]);
                    assert(prev.deep_view()[j] == prev@[j]@);
                } else {
                    assert(out@[j]@ == cleaned@);
                }
            }
        }
        i = i + 1;
    }
    proof {
        assert(out.deep_view() =~= normalize_all_spec(segs.deep_view()));
    }
    out
}

} // verus!
