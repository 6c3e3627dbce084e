//! Newline removal and trailing-whitespace trimming on text, modelled as
//! sequences of characters.

use vstd::prelude::*;
use vstd::string::StrSliceExecFns;

verus! {

/// The newline character of this build's target platform family.
pub const NEWLINE: char = '\n';

/// What a segment looks like once normalized: every occurrence of the
/// platform newline removed, all other characters kept in order.
pub open spec fn strip_newlines_spec(s: Seq<char>) -> Seq<char> {
    s.filter(|c: char| c != NEWLINE)
}

/// How many platform newlines a text holds.
pub open spec fn newline_count(s: Seq<char>) -> nat {
    s.filter(|c: char| c == NEWLINE).len()
}

/// A character with the Unicode `White_Space` property, the set that
/// trailing-whitespace trimming removes.
pub open spec fn is_space(c: char) -> bool {
    c == ' ' || c == '\t' || c == '\n' || c == '\u{B}' || c == '\u{C}' || c == '\r'
        || c == '\u{85}' || c == '\u{A0}' || c == '\u{1680}'
        || c == '\u{2000}' || c == '\u{2001}' || c == '\u{2002}' || c == '\u{2003}'
        || c == '\u{2004}' || c == '\u{2005}' || c == '\u{2006}' || c == '\u{2007}'
        || c == '\u{2008}' || c == '\u{2009}' || c == '\u{200A}'
        || c == '\u{2028}' || c == '\u{2029}' || c == '\u{202F}' || c == '\u{205F}'
        || c == '\u{3000}'
}

/// What trimming leaves: the longest prefix that does not end in whitespace.
pub open spec fn trim_end_spec(s: Seq<char>) -> Seq<char>
    decreases s.len(),
{
    if s.len() > 0 && is_space(s.last()) {
        trim_end_spec(s.drop_last())
    } else {
        s
    }
}

/// Relies on String::push: appends exactly the one character.
#[verifier::external_body]
pub(crate) fn push_char(s: &mut String, c: char)
    ensures
        final(s)@ == old(s)@.push(c),
{
    s.push(c);
}

/// Whether `c` has the Unicode `White_Space` property.
pub fn is_space_char(c: char) -> (r: bool)
    ensures
        r == is_space(c),
{
    c == ' ' || c == '\t' || c == '\n' || c == '\u{B}' || c == '\u{C}' || c == '\r'
        || c == '\u{85}' || c == '\u{A0}' || c == '\u{1680}'
        || c == '\u{2000}' || c == '\u{2001}' || c == '\u{2002}' || c == '\u{2003}'
        || c == '\u{2004}' || c == '\u{2005}' || c == '\u{2006}' || c == '\u{2007}'
        || c == '\u{2008}' || c == '\u{2009}' || c == '\u{200A}'
        || c == '\u{2028}' || c == '\u{2029}' || c == '\u{202F}' || c == '\u{205F}'
        || c == '\u{3000}'
}

/// Removes every occurrence of the platform newline from `s` and keeps
/// everything else in order.
pub fn strip_newlines(s: &str) -> (r: String)
    ensures
        r@ == strip_newlines_spec(s@),
{
    let n = s.unicode_len();
    let mut out = String::new();
    let mut i: usize = 0;
    while i < n
        invariant
            n == s@.len(),
            i <= n,
            out@ == strip_newlines_spec(s@.subrange(0, i as int)),
        decreases n - i,
    {
        let c = s.get_char(i);
        if c != NEWLINE {
            push_char(&mut out, c);
        }
        proof {
            let pred = |ch: char| ch != NEWLINE;
            let prefix = s@.subrange(0, i as int);
            let one = seq![s@[i as int]];
            assert(s@.subrange(0, i + 1) =~= prefix + one);
            Seq::<char>::filter_distributes_over_add(prefix, one, pred);
            reveal(Seq::filter);
            assert(one.drop_last() =~= Seq::<char>::empty());
            assert(Seq::<char>::empty().filter(pred) =~= Seq::<char>::empty());
            if c != NEWLINE {
                assert(one.filter(pred) =~= seq![c]);
                assert(prefix.filter(pred) + one.filter(pred) =~= prefix.filter(pred).push(c));
            } else {
                assert(one.filter(pred) =~= Seq::<char>::empty());
                assert(prefix.filter(pred) + one.filter(pred) =~= prefix.filter(pred));
            }
        }
        i = i + 1;
    }
    proof {
        assert(s@.subrange(0, n as int) =~= s@);
    }
    out
}

/// Removes every trailing whitespace character, as the reader does for
/// text that came from the standard input stream.
pub fn trim_trailing_whitespace(s: &str) -> (r: String)
    ensures
        r@ == trim_end_spec(s@),
{
    let n = s.unicode_len();
    let mut j: usize = n;
    proof {
        assert(s@.subrange(0, n as int) =~= s@);
    }
    loop
        invariant
            n == s@.len(),
            j <= n,
            trim_end_spec(s@) == trim_end_spec(s@.subrange(0, j as int)),
        ensures
            j <= n,
            n == s@.len(),
            trim_end_spec(s@) == trim_end_spec(s@.subrange(0, j as int)),
            j == 0 || !is_space(s@[j - 1]),
        decreases j,
    {
        if j == 0 {
            break;
        }
        let c = s.get_char(j - 1);
        if !is_space_char(c) {
            break;
        }
        proof {
            let cur = s@.subrange(0, j as int);
            assert(cur.last() == s@[j - 1]);
            assert(cur.drop_last() =~= s@.subrange(0, j - 1));
        }
        j = j - 1;
    }
    let kept = s.substring_char(0, j);
    proof {
        let cur = s@.subrange(0, j as int);
        if j > 0 {
            assert(cur.last() == s@[j - 1]);
        }
        assert(trim_end_spec(cur) == cur);
    }
    kept.to_owned()
}

/// Keeping only the characters that satisfy a predicate every character
/// already satisfies changes nothing.
pub proof fn lemma_filter_keeps_all<A>(s: Seq<A>, pred: spec_fn(A) -> bool)
    requires
        forall|i: int| 0 <= i < s.len() ==> pred(s[i]),
    ensures
        s.filter(pred) == s,
    decreases s.len(),
{
    reveal(Seq::filter);
    if s.len() > 0 {
        lemma_filter_keeps_all(s.drop_last(), pred);
        assert(s.drop_last().filter(pred).push(s.last()) =~= s);
    }
}

/// Keeping only the characters that satisfy a predicate no character
/// satisfies leaves nothing.
pub proof fn lemma_filter_drops_all<A>(s: Seq<A>, pred: spec_fn(A) -> bool)
    requires
        forall|i: int| 0 <= i < s.len() ==> !pred(s[i]),
    ensures
        s.filter(pred) == Seq::<A>::empty(),
    decreases s.len(),
{
    reveal(Seq::filter);
    if s.len() > 0 {
        lemma_filter_drops_all(s.drop_last(), pred);
    }
}

/// A normalized segment holds no platform newline at all.
pub proof fn lemma_strip_removes_newlines(s: Seq<char>)
    ensures
        !strip_newlines_spec(s).contains(NEWLINE),
{
    broadcast use vstd::seq_lib::group_filter_ensures;

    let out = strip_newlines_spec(s);
    if out.contains(NEWLINE) {
        let i = choose|i: int| 0 <= i < out.len() && out[i] == NEWLINE;
        assert((|c: char| c != NEWLINE)(out[i]));
    }
}

/// Normalizing text that holds no platform newline changes nothing; hence
/// normalizing twice is the same as normalizing once.
pub proof fn lemma_strip_idempotent(s: Seq<char>)
    requires
        !s.contains(NEWLINE),
    ensures
        strip_newlines_spec(s) == s,
{
    assert forall|i: int| 0 <= i < s.len() implies (|c: char| c != NEWLINE)(s[i]) by {
        if s[i] == NEWLINE {
            assert(s.contains(NEWLINE));
        }
    }
    lemma_filter_keeps_all(s, |c: char| c != NEWLINE);
}

/// Normalizing is idempotent: a second pass over an already-normalized text
/// returns it unchanged.
pub proof fn lemma_strip_twice(s: Seq<char>)
    ensures
        strip_newlines_spec(strip_newlines_spec(s)) == strip_newlines_spec(s),
{
    lemma_strip_removes_newlines(s);
    lemma_strip_idempotent(strip_newlines_spec(s));
}

/// Text without a platform newline counts zero of them.
pub proof fn lemma_newline_count_zero(s: Seq<char>)
    requires
        !s.contains(NEWLINE),
    ensures
        newline_count(s) == 0,
{
    assert forall|i: int| 0 <= i < s.len() implies !((|c: char| c == NEWLINE)(s[i])) by {
        if s[i] == NEWLINE {
            assert(s.contains(NEWLINE));
        }
    }
    lemma_filter_drops_all(s, |c: char| c == NEWLINE);
}

} // verus!
