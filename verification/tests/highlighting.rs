use tedit::highlight::{highlight_line, is_keyword_token, join_spans};

fn line(s: &str) -> Vec<char> {
    s.chars().collect()
}

fn spans(s: &str) -> Vec<(Vec<char>, bool)> {
    highlight_line(&line(s))
}

#[test]
fn keyword_and_plain_tokens_are_classified() {
    let r = spans("fn  add");
    assert_eq!(r, vec![(line("fn"), true), (line("add"), false)]);
}

#[test]
fn rendered_text_collapses_whitespace() {
    let r = spans("fn  add");
    assert_eq!(join_spans(&r), line("fn add"));
}

#[test]
fn highlighting_rendered_text_is_idempotent() {
    for input in ["fn  add", "  let   mut x  ", "\ta b\tc", "return", ""] {
        let first = spans(input);
        let rendered = join_spans(&first);
        let second = highlight_line(&rendered);
        assert_eq!(second, first);
        assert_eq!(join_spans(&second), rendered);
    }
}

#[test]
fn every_keyword_is_recognized() {
    for kw in ["fn", "let", "mut", "match", "if", "else", "for", "loop", "while", "return"] {
        assert!(is_keyword_token(&line(kw)), "{} should be a keyword", kw);
        let r = spans(kw);
        assert_eq!(r, vec![(line(kw), true)]);
    }
}

#[test]
fn classification_is_case_sensitive_and_exact() {
    assert!(!is_keyword_token(&line("Fn")));
    assert!(!is_keyword_token(&line("fnx")));
    assert!(!is_keyword_token(&line("f")));
    assert!(!is_keyword_token(&line("")));
}

#[test]
fn unicode_whitespace_separates_tokens() {
    let r = spans("a\u{000B}b");
    assert_eq!(r, vec![(line("a"), false), (line("b"), false)]);
    let r2 = spans("fn\u{00A0}if\u{3000}x\u{2028}");
    assert_eq!(r2, vec![(line("fn"), true), (line("if"), true), (line("x"), false)]);
    assert_eq!(join_spans(&r2), line("fn if x"));
}

#[test]
fn whitespace_only_line_has_no_tokens() {
    assert_eq!(spans("   \t "), Vec::<(Vec<char>, bool)>::new());
    assert_eq!(spans(""), Vec::<(Vec<char>, bool)>::new());
}

#[test]
fn leading_and_trailing_whitespace_is_dropped() {
    let r = spans("  if x  ");
    assert_eq!(r, vec![(line("if"), true), (line("x"), false)]);
    assert_eq!(join_spans(&r), line("if x"));
}
