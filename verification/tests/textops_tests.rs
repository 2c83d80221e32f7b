use helloasso_calendar::textops::{replace_pat, split_on_plus};

#[test]
fn replace_collapses_three_spaces() {
    assert_eq!(replace_pat("a   b", "   ", " "), "a b");
}

#[test]
fn replace_collapses_two_spaces() {
    assert_eq!(replace_pat("a  b", "  ", " "), "a b");
}

#[test]
fn replace_is_leftmost_and_non_overlapping() {
    assert_eq!(replace_pat("    ", "   ", " "), "  ");
    assert_eq!(replace_pat("aaa", "aa", "b"), "ba");
}

#[test]
fn replace_without_occurrence_keeps_text() {
    assert_eq!(replace_pat("a b", "  ", " "), "a b");
    assert_eq!(replace_pat("", "  ", " "), "");
}

#[test]
fn split_on_plus_cases() {
    assert_eq!(split_on_plus("a+b"), vec!["a", "b"]);
    assert_eq!(split_on_plus("abc"), vec!["abc"]);
    assert_eq!(split_on_plus(""), vec![""]);
    assert_eq!(split_on_plus("a++b"), vec!["a", "", "b"]);
    assert_eq!(split_on_plus("+a+"), vec!["", "a", ""]);
}
