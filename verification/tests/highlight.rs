use shadowpaste::highlight::{cut_fragments, highlight_fragments};

fn frags(parts: &[(&str, bool)]) -> Vec<(String, bool)> {
    parts.iter().map(|(s, m)| (s.to_string(), *m)).collect()
}

fn joined(fragments: &Vec<(String, bool)>) -> String {
    fragments.iter().map(|(s, _)| s.as_str()).collect()
}

#[test]
fn matches_are_marked_whatever_their_case() {
    assert_eq!(
        highlight_fragments("Hello World, hello", "hello"),
        frags(&[("Hello", true), (" World, ", false), ("hello", true)])
    );
    assert_eq!(highlight_fragments("say HELLO twice", "Hello"), frags(&[("say ", false), ("HELLO", true), (" twice", false)]));
}

#[test]
fn empty_query_marks_nothing() {
    assert_eq!(highlight_fragments("Hello", ""), frags(&[("Hello", false)]));
    assert_eq!(highlight_fragments("", ""), frags(&[("", false)]));
}

#[test]
fn text_without_a_match_comes_back_whole() {
    assert_eq!(highlight_fragments("Hello", "xyz"), frags(&[("Hello", false)]));
    assert_eq!(highlight_fragments("ab", "abc"), frags(&[("ab", false)]));
    assert_eq!(highlight_fragments("", "a"), frags(&[("", false)]));
}

#[test]
fn whole_text_can_be_one_match() {
    assert_eq!(highlight_fragments("Hello", "hello"), frags(&[("Hello", true)]));
}

#[test]
fn matches_do_not_overlap() {
    assert_eq!(highlight_fragments("aaa", "aa"), frags(&[("aa", true), ("a", false)]));
    assert_eq!(highlight_fragments("aaaa", "aa"), frags(&[("aa", true), ("aa", true)]));
    assert_eq!(highlight_fragments("abab", "ab"), frags(&[("ab", true), ("ab", true)]));
    assert_eq!(highlight_fragments("xabaxaba", "aba"), frags(&[("x", false), ("aba", true), ("x", false), ("aba", true)]));
}

#[test]
fn places_are_counted_in_characters() {
    assert_eq!(
        highlight_fragments("Grüße GRÜSSE", "grü"),
        frags(&[("Grü", true), ("ße ", false), ("GRÜ", true), ("SSE", false)])
    );
    assert_eq!(highlight_fragments("日本語のテキスト", "の"), frags(&[("日本語", false), ("の", true), ("テキスト", false)]));
}

#[test]
fn text_that_changes_length_in_lower_case_is_not_marked() {
    // The capital I with a dot becomes two characters in lower case.
    let text = "\u{130}stanbul";
    assert_eq!(text.to_lowercase().chars().count(), text.chars().count() + 1);
    assert_eq!(highlight_fragments(text, "stan"), frags(&[(text, false)]));
}

#[test]
fn fragments_make_up_the_text() {
    for (text, query) in [("Hello World, hello", "o"), ("aaa", "aa"), ("abc", "abc"), ("abc", ""), ("", "x"), ("mississippi", "ss")] {
        let fragments = highlight_fragments(text, query);
        assert!(!fragments.is_empty());
        assert_eq!(joined(&fragments), text);
    }
}

#[test]
fn cut_follows_the_folded_text() {
    assert_eq!(cut_fragments("ABC", "abc", "b"), frags(&[("A", false), ("B", true), ("C", false)]));
    assert_eq!(cut_fragments("ABC", "xbx", "b"), frags(&[("A", false), ("B", true), ("C", false)]));
    assert_eq!(cut_fragments("ABC", "abc", ""), frags(&[("ABC", false)]));
    assert_eq!(cut_fragments("ABC", "abcd", "b"), frags(&[("ABC", false)]));
    assert_eq!(cut_fragments("ABC", "abc", "B"), frags(&[("ABC", false)]));
}
