//! Rendering the normalized segments: one per line, every segment but the
//! last always followed by a newline, the last one followed by a newline
//! only when the trailing newline is not suppressed.

use vstd::prelude::*;
use vstd::string::StringExecFns;
use crate::text::{newline_count, NEWLINE};

verus! {

/// The rendered output for a sequence of segments. Each segment except the
/// last is followed by the platform newline whatever `suppress` says; the
/// last is followed by one exactly when `suppress` is false.
pub open spec fn render_spec(segs: Seq<Seq<char>>, suppress: bool) -> Seq<char>
    decreases segs.len(),
{
    if segs.len() == 0 {
        Seq::empty()
    } else if segs.len() == 1 {
        if suppress {
            segs[0]
        } else {
            segs[0].push(NEWLINE)
        }
    } else {
        segs[0].push(NEWLINE) + render_spec(segs.drop_first(), suppress)
    }
}

/// Writes the segments one per line, suppressing only the very last
/// segment's trailing newline when asked to.
pub fn render(segs: &Vec<String>, suppress: bool) -> (r: String)
    ensures
        r@ == render_spec(segs.deep_view(), suppress),
{
    let ghost all = segs.deep_view();
    let mut out = String::new();
    let mut i: usize = 0;
    proof {
        assert(all.skip(0) =~= all);
    }
    while i < segs.len()
        invariant
            i <= segs@.len(),
            all == segs.deep_view(),
            all.len() == segs@.len(),
            render_spec(all, suppress) == out@ + render_spec(all.skip(i as int), suppress),
        decreases segs@.len() - i,
    {
        let ghost before = out@;
        let ghost rest = all.skip(i as int);
        out.append(segs[i].as_str());
        if i + 1 < segs.len() || !suppress {
            crate::text::push_char(&mut out, NEWLINE);
        }
        proof {
            assert(rest[0] == all[i as int]);
            assert(rest.drop_first() =~= all.skip(i + 1));
            if i + 1 < all.len() {
                assert(render_spec(rest, suppress) == rest[0].push(NEWLINE) + render_spec(
                    rest.drop_first(),
                    suppress,
                ));
                assert(out@ =~= before + rest[0].push(NEWLINE));
                assert(before + (rest[0].push(NEWLINE) + render_spec(all.skip(i + 1), suppress))
                    =~= (before + rest[0].push(NEWLINE)) + render_spec(all.skip(i + 1), suppress));
            } else {
                assert(rest.len() == 1);
                assert(all.skip(i + 1) =~= Seq::<Seq<char>>::empty());
                if suppress {
                    assert(out@ =~= before + rest[0]);
                    assert(out@ + render_spec(all.skip(i + 1), suppress) =~= out@);
                } else {
                    assert(out@ =~= before + rest[0].push(NEWLINE));
                    assert(out@ + render_spec(all.skip(i + 1), suppress) =~= out@);
                }
            }
        }
        i = i + 1;
    }
    proof {
        assert(all.skip(all.len() as int) =~= Seq::<Seq<char>>::empty());
        assert(out@ + render_spec(Seq::<Seq<char>>::empty(), suppress) =~= out@);
    }
    out
}

/// The lines of a text: the pieces between its newline characters, in order,
/// empty pieces kept. A text without a newline is one line, so there is
/// always at least one, and a trailing newline is followed by one last empty
/// line.
pub open spec fn lines_of(s: Seq<char>) -> Seq<Seq<char>>
    decreases s.len(),
{
    if s.len() == 0 {
        seq![Seq::<char>::empty()]
    } else if s[0] == NEWLINE {
        seq![Seq::<char>::empty()] + lines_of(s.drop_first())
    } else {
        let rest = lines_of(s.drop_first());
        seq![seq![s[0]] + rest[0]] + rest.drop_first()
    }
}

/// A text without a newline is its own single line.
pub proof fn lemma_lines_of_plain(a: Seq<char>)
    requires
        !a.contains(NEWLINE),
    ensures
        lines_of(a) == seq![a],
    decreases a.len(),
{
    if a.len() == 0 {
        assert(lines_of(a) =~~= seq![a]);
    } else {
        assert(a[0] != NEWLINE);
        let tail = a.drop_first();
        assert forall|j: int| 0 <= j < tail.len() implies tail[j] != NEWLINE by {
            if tail[j] == NEWLINE {
                assert(a[j + 1] == NEWLINE);
            }
        }
        assert(!tail.contains(NEWLINE));
        lemma_lines_of_plain(tail);
        assert(lines_of(a) =~~= seq![a]);
    }
}

/// The lines of `a`, a newline, then `b`: the line `a`, then the lines of
/// `b`.
pub proof fn lemma_lines_of_append(a: Seq<char>, b: Seq<char>)
    requires
        !a.contains(NEWLINE),
    ensures
        lines_of(a + seq![NEWLINE] + b) == seq![a] + lines_of(b),
    decreases a.len(),
{
    let s = a + seq![NEWLINE] + b;
    if a.len() == 0 {
        assert(s[0] == NEWLINE);
        assert(s.drop_first() =~= b);
        assert(lines_of(s) =~~= seq![a] + lines_of(b));
    } else {
        assert(s[0] == a[0]);
        assert(a[0] != NEWLINE);
        let tail = a.drop_first();
        assert forall|j: int| 0 <= j < tail.len() implies tail[j] != NEWLINE by {
            if tail[j] == NEWLINE {
                assert(a[j + 1] == NEWLINE);
            }
        }
        assert(!tail.contains(NEWLINE));
        lemma_lines_of_append(tail, b);
        assert(s.drop_first() =~= tail + seq![NEWLINE] + b);
        assert(lines_of(s.drop_first()) == seq![tail] + lines_of(b));
        assert(lines_of(s.drop_first())[0] == tail);
        assert(seq![s[0]] + tail =~= a);
        assert((seq![tail] + lines_of(b)).drop_first() =~= lines_of(b));
        assert(lines_of(s) =~~= seq![a] + lines_of(b));
    }
}

/// Rendering puts each segment on a line of its own: reading the output back
/// as lines recovers the segments exactly, with one final empty line when
/// the trailing newline was written.
pub proof fn lemma_render_lines(segs: Seq<Seq<char>>, suppress: bool)
    requires
        segs.len() >= 1,
        forall|j: int| 0 <= j < segs.len() ==> !(#[trigger] segs[j]).contains(NEWLINE),
    ensures
        lines_of(render_spec(segs, suppress)) == if suppress {
            segs
        } else {
            segs + seq![Seq::<char>::empty()]
        },
    decreases segs.len(),
{
    if segs.len() == 1 {
        if suppress {
            lemma_lines_of_plain(segs[0]);
            assert(lines_of(render_spec(segs, suppress)) =~~= segs);
        } else {
            assert(segs[0].push(NEWLINE) =~= segs[0] + seq![NEWLINE] + Seq::<char>::empty());
            lemma_lines_of_append(segs[0], Seq::<char>::empty());
            assert(lines_of(render_spec(segs, suppress)) =~~= segs + seq![Seq::<char>::empty()]);
        }
    } else {
        let rest = segs.drop_first();
        assert(forall|j: int| 0 <= j < rest.len() ==> !(#[trigger] rest[j]).contains(NEWLINE));
        lemma_render_lines(rest, suppress);
        assert(segs[0].push(NEWLINE) + render_spec(rest, suppress) =~= segs[0] + seq![NEWLINE]
            + render_spec(rest, suppress));
        lemma_lines_of_append(segs[0], render_spec(rest, suppress));
        if suppress {
            assert(lines_of(render_spec(segs, suppress)) =~~= segs);
        } else {
            assert(lines_of(render_spec(segs, suppress)) =~~= segs + seq![Seq::<char>::empty()]);
        }
    }
}

/// Rendering `n` newline-free segments writes exactly `n - 1` newlines, plus
/// the trailing one when it is not suppressed: the lines of the output are
/// the segments themselves.
pub proof fn lemma_render_line_count(segs: Seq<Seq<char>>, suppress: bool)
    requires
        segs.len() >= 1,
        forall|j: int| 0 <= j < segs.len() ==> !(#[trigger] segs[j]).contains(NEWLINE),
    ensures
        newline_count(render_spec(segs, suppress)) + (if suppress {
            1nat
        } else {
            0nat
        }) == segs.len(),
    decreases segs.len(),
{
    let pred = |c: char| c == NEWLINE;
    reveal(Seq::filter);
    crate::text::lemma_newline_count_zero(segs[0]);
    assert(segs[0].push(NEWLINE) =~= segs[0] + seq![NEWLINE]);
    assert(seq![NEWLINE].drop_last() =~= Seq::<char>::empty());
    assert(Seq::<char>::empty().filter(pred) =~= Seq::<char>::empty());
    assert(seq![NEWLINE].filter(pred) =~= seq![NEWLINE]);
    Seq::<char>::filter_distributes_over_add(segs[0], seq![NEWLINE], pred);
    if segs.len() == 1 {
        if !suppress {
            assert(newline_count(segs[0].push(NEWLINE)) == 1);
        }
    } else {
        let rest = segs.drop_first();
        assert(forall|j: int| 0 <= j < rest.len() ==> !(#[trigger] rest[j]).contains(NEWLINE));
        lemma_render_line_count(rest, suppress);
        Seq::<char>::filter_distributes_over_add(
            segs[0].push(NEWLINE),
            render_spec(rest, suppress),
            pred,
        );
        assert(newline_count(segs[0].push(NEWLINE)) == 1);
    }
}

} // verus!
