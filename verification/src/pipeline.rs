//! The whole pipeline in one call: segment, normalize, render.

use vstd::prelude::*;
use crate::pattern::Pattern;
use crate::render::{lemma_render_line_count, render, render_spec};
use crate::segment::{normalize_all_spec, normalize_segments, pattern_view, segment,
    segments_spec};
use crate::text::{lemma_strip_idempotent, lemma_strip_removes_newlines, newline_count, NEWLINE};

verus! {

/// The full output for a raw text, an optional separator and the
/// suppress-trailing-newline choice.
pub open spec fn flatten_spec(t: Seq<char>, p: Option<Seq<char>>, suppress: bool) -> Seq<char> {
    render_spec(normalize_all_spec(segments_spec(t, p)), suppress)
}

/// Splits the text at the separator's matches (or keeps it whole), removes
/// the platform newline from every segment, and joins the segments one per
/// line; the last line ends in a newline exactly when `suppress` is false.
/// The output holds one line per segment: counting its newlines recovers the
/// segment count.
pub fn flatten(text: &str, pattern: Option<&Pattern>, suppress: bool) -> (r: String)
    ensures
        r@ == flatten_spec(text@, pattern_view(pattern), suppress),
        newline_count(r@) + (if suppress {
            1nat
        } else {
            0nat
        }) == segments_spec(text@, pattern_view(pattern)).len(),
{
    let segs = segment(text, pattern);
    let norm = normalize_segments(&segs);
    let out = render(&norm, suppress);
    proof {
        let views = segs.deep_view();
        assert forall|j: int| 0 <= j < norm.deep_view().len() implies !(
        #[trigger] norm.deep_view()[j]).contains(NEWLINE) by {
            assert(norm.deep_view()[j] == crate::text::strip_newlines_spec(views[j]));
            lemma_strip_removes_newlines(views[j]);
        }
        lemma_render_line_count(norm.deep_view(), suppress);
    }
    out
}

/// Whatever the split produced, the output holds one line per segment: its
/// lines, read back, are exactly the normalized segments, with one final
/// empty line when the trailing newline was written.
pub proof fn lemma_pipeline_recovers_segments(segs: Seq<Seq<char>>, suppress: bool)
    requires
        segs.len() >= 1,
    ensures
        crate::render::lines_of(render_spec(normalize_all_spec(segs), suppress))
            == if suppress {
            normalize_all_spec(segs)
        } else {
            normalize_all_spec(segs) + seq![Seq::<char>::empty()]
        },
{
    let norm = normalize_all_spec(segs);
    assert forall|j: int| 0 <= j < norm.len() implies !(#[trigger] norm[j]).contains(NEWLINE) by {
        assert(norm[j] == crate::text::strip_newlines_spec(segs[j]));
        lemma_strip_removes_newlines(segs[j]);
    }
    crate::render::lemma_render_lines(norm, suppress);
}

/// With no separator and no embedded newline, flattening returns the text
/// itself, with a trailing newline exactly when it is not suppressed.
pub proof fn lemma_flatten_unsplit(t: Seq<char>, suppress: bool)
    requires
        !t.contains(NEWLINE),
    ensures
        flatten_spec(t, None::<Seq<char>>, suppress) == if suppress {
            t
        } else {
            t.push(NEWLINE)
        },
{
    lemma_strip_idempotent(t);
    assert(normalize_all_spec(seq![t]) =~= seq![t]);
}

/// A separator that matches nowhere changes nothing: when splitting leaves
/// the text whole, the output is the very output of the no-separator run.
pub proof fn lemma_flatten_trivial_split(t: Seq<char>, p: Seq<char>, suppress: bool)
    requires
        segments_spec(t, Some(p)) == segments_spec(t, None::<Seq<char>>),
    ensures
        flatten_spec(t, Some(p), suppress) == flatten_spec(t, None::<Seq<char>>, suppress),
{
}

} // verus!
