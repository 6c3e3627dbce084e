use flatline::input::{resolve_input, InputSource};
use flatline::pattern::Pattern;
use flatline::pipeline::flatten;
use flatline::segment::{normalize_segments, segment};
use flatline::text::{strip_newlines, trim_trailing_whitespace};
use flatline::FlatError;

#[test]
fn plain_text_interactive_keeps_text_and_adds_newline() {
    assert_eq!(flatten("plain", None, false), "plain\n");
}

#[test]
fn plain_text_suppressed_keeps_text_exactly() {
    assert_eq!(flatten("plain", None, true), "plain");
}

#[test]
fn embedded_newline_is_flattened_interactively() {
    assert_eq!(flatten("hello\nworld", None, false), "helloworld\n");
}

#[test]
fn redirected_output_drops_the_trailing_newline() {
    assert_eq!(flatten("x\n", None, true), "x");
}

#[test]
fn every_platform_newline_leaves_the_segment() {
    assert_eq!(flatten("a\nb\nc\n", None, true), "abc");
}

#[test]
fn comma_split_yields_all_segments_including_empty_ones() {
    let p = Pattern::new(",").unwrap();
    let segs = segment("a,b,,c", Some(&p));
    assert_eq!(segs, vec!["a".to_string(), "b".to_string(), "".to_string(), "c".to_string()]);
}

#[test]
fn comma_split_prints_four_lines() {
    let p = Pattern::new(",").unwrap();
    assert_eq!(flatten("a,b,,c", Some(&p), false), "a\nb\n\nc\n");
}

#[test]
fn comma_split_suppressed_drops_only_the_last_newline() {
    let p = Pattern::new(",").unwrap();
    assert_eq!(flatten("a,b,,c", Some(&p), true), "a\nb\n\nc");
}

#[test]
fn separator_matching_nowhere_equals_the_unsplit_run() {
    let p = Pattern::new("z").unwrap();
    assert_eq!(flatten("abc", Some(&p), false), flatten("abc", None, false));
    assert_eq!(flatten("abc", Some(&p), true), flatten("abc", None, true));
}

#[test]
fn three_matches_give_four_lines() {
    let p = Pattern::new(",").unwrap();
    let out = flatten("a,b,c,d", Some(&p), true);
    assert_eq!(out.matches('\n').count(), 3);
    assert_eq!(out, "a\nb\nc\nd");
}

#[test]
fn separators_at_the_edges_leave_empty_segments() {
    let p = Pattern::new(",").unwrap();
    let segs = segment(",a,", Some(&p));
    assert_eq!(segs, vec!["".to_string(), "a".to_string(), "".to_string()]);
    assert_eq!(flatten(",a,", Some(&p), true), "\na\n");
}

#[test]
fn empty_input_is_a_single_empty_segment() {
    assert_eq!(flatten("", None, true), "");
    assert_eq!(flatten("", None, false), "\n");
    let p = Pattern::new(",").unwrap();
    assert_eq!(segment("", Some(&p)), vec!["".to_string()]);
}

#[test]
fn newlines_inside_split_segments_are_removed() {
    let p = Pattern::new(";").unwrap();
    assert_eq!(flatten("a\nb;c\nd", Some(&p), false), "ab\ncd\n");
}

#[test]
fn normalizing_is_idempotent() {
    let once = strip_newlines("one\ntwo\n");
    assert_eq!(once, "onetwo");
    let twice = strip_newlines(&once);
    assert_eq!(twice, once);
}

#[test]
fn normalizing_touches_only_the_platform_newline() {
    assert_eq!(strip_newlines("a\r\nb"), "a\rb");
    assert_eq!(strip_newlines(""), "");
}

#[test]
fn normalize_segments_keeps_order_and_count() {
    let segs = vec!["a\nb".to_string(), "".to_string(), "\n\n".to_string()];
    assert_eq!(
        normalize_segments(&segs),
        vec!["ab".to_string(), "".to_string(), "".to_string()]
    );
}

#[test]
fn trailing_whitespace_is_trimmed() {
    assert_eq!(trim_trailing_whitespace("x \t\r\n"), "x");
    assert_eq!(trim_trailing_whitespace("  "), "");
    assert_eq!(trim_trailing_whitespace(""), "");
    assert_eq!(trim_trailing_whitespace(" a b"), " a b");
    assert_eq!(trim_trailing_whitespace("a\u{3000}\u{2028}"), "a");
}

#[test]
fn file_source_wins_when_only_a_file_is_given() {
    let r = resolve_input(Some("notes.txt".to_string()), None);
    assert_eq!(r, Ok(InputSource::File("notes.txt".to_string())));
}

#[test]
fn literal_source_is_used_when_only_text_is_given() {
    let r = resolve_input(None, Some("abc".to_string()));
    assert_eq!(r, Ok(InputSource::Literal("abc".to_string())));
}

#[test]
fn standard_input_is_the_default_source() {
    assert_eq!(resolve_input(None, None), Ok(InputSource::StdIn));
}

#[test]
fn giving_both_sources_is_rejected() {
    let r = resolve_input(Some("f".to_string()), Some("s".to_string()));
    assert_eq!(r, Err(FlatError::ConflictingInputs));
}

#[test]
fn an_invalid_pattern_is_reported() {
    let r = Pattern::new("[");
    assert!(matches!(r, Err(FlatError::InvalidPattern)));
    assert_eq!(FlatError::InvalidPattern.message(), "could not compile regex");
}

#[test]
fn a_valid_pattern_keeps_its_text() {
    let p = Pattern::new("a+").unwrap();
    assert_eq!(p.text(), "a+");
}

#[test]
fn error_messages_name_the_failure() {
    assert_eq!(
        FlatError::ConflictingInputs.message(),
        "a file and a literal string cannot both be given"
    );
}
