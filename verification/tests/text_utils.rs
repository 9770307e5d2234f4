//! The character-level utilities: substitution, splitting, joining and
//! decimal rendering.

use mdrender::substitute_breaks;
use mdrender::text::{chars_of, dec_of, join_chars, lines_of, replace_chars, split_chars};

fn cv(s: &str) -> Vec<char> {
    s.chars().collect()
}

fn sv(v: &[Vec<char>]) -> Vec<String> {
    v.iter().map(|p| p.iter().collect()).collect()
}

#[test]
fn substitution_replaces_both_forms() {
    let out = substitute_breaks(&cv("a<br>b<BR>c"), &cv("[[X]]"));
    let s: String = out.iter().collect();
    assert_eq!(s, "a[[X]]b[[X]]c");
}

#[test]
fn substitution_is_case_sensitive() {
    let out = substitute_breaks(&cv("a<bR>b"), &cv("[[X]]"));
    let s: String = out.iter().collect();
    assert_eq!(s, "a<bR>b");
}

#[test]
fn replace_is_leftmost_non_overlapping() {
    let out = replace_chars(&cv("aaa"), &cv("aa"), &cv("b"));
    let s: String = out.iter().collect();
    assert_eq!(s, "ba");
}

#[test]
fn split_yields_parts_around_occurrences() {
    let parts = split_chars(&cv("x[[B]]y[[B]]"), &cv("[[B]]"));
    assert_eq!(sv(&parts), vec!["x", "y", ""]);
}

#[test]
fn split_without_occurrence_is_whole() {
    let parts = split_chars(&cv("plain"), &cv("[[B]]"));
    assert_eq!(sv(&parts), vec!["plain"]);
}

#[test]
fn join_restores_split() {
    let pat = cv("[[B]]");
    let t = cv("a[[B]]b[[B]][[B]]c");
    let joined = join_chars(&split_chars(&t, &pat), &pat);
    assert_eq!(joined, t);
}

#[test]
fn lines_drop_one_trailing_newline() {
    assert_eq!(sv(&lines_of(&cv("a\nb\n"))), vec!["a", "b"]);
    assert_eq!(sv(&lines_of(&cv("a\n\n"))), vec!["a", ""]);
    assert_eq!(sv(&lines_of(&cv("a"))), vec!["a"]);
    assert_eq!(lines_of(&cv("")).len(), 0);
}

#[test]
fn decimal_rendering() {
    let s: String = dec_of(0).iter().collect();
    assert_eq!(s, "0");
    let s: String = dec_of(907).iter().collect();
    assert_eq!(s, "907");
    let s: String = dec_of(u64::MAX).iter().collect();
    assert_eq!(s, "18446744073709551615");
}

#[test]
fn chars_of_round_trip() {
    let v = chars_of("héllo ─ world");
    let s: String = v.iter().collect();
    assert_eq!(s, "héllo ─ world");
}
