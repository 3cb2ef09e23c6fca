use prelauncher::text::{ends_with, matches_at, replace_all, same_text, split};

#[test]
fn ends_with_tells_suffixes() {
    assert!(ends_with("mod-1.0.jar", ".jar"));
    assert!(ends_with(".jar", ".jar"));
    assert!(ends_with("anything", ""));
    assert!(!ends_with("jar", ".jar"));
    assert!(!ends_with("mod.jar.txt", ".jar"));
    assert!(!ends_with("", ".jar"));
}

#[test]
fn matches_at_looks_at_one_place() {
    assert!(matches_at("abcdef", 2, "cd"));
    assert!(matches_at("abcdef", 6, ""));
    assert!(!matches_at("abcdef", 3, "cd"));
    assert!(!matches_at("abcdef", 5, "fg"));
    assert!(!matches_at("abcdef", 7, ""));
}

#[test]
fn same_text_compares_characters() {
    assert!(same_text("", ""));
    assert!(same_text("central", "central"));
    assert!(!same_text("central", "centra"));
    assert!(!same_text("central", "Central"));
}

#[test]
fn replace_all_replaces_every_occurrence() {
    assert_eq!(replace_all("a{X}b{X}c", "{X}", "1"), "a1b1c");
    assert_eq!(replace_all("{X}", "{X}", ""), "");
    assert_eq!(replace_all("nothing here", "{X}", "1"), "nothing here");
    assert_eq!(replace_all("", "{X}", "1"), "");
}

#[test]
fn replace_all_goes_on_behind_what_it_replaced() {
    assert_eq!(replace_all("aaa", "aa", "b"), "ba");
    assert_eq!(replace_all("abab", "ab", "a"), "aa");
}

#[test]
fn replace_all_with_an_empty_pattern_changes_nothing() {
    assert_eq!(replace_all("abc", "", "x"), "abc");
}

#[test]
fn replace_all_counts_characters_not_bytes() {
    assert_eq!(replace_all("grüße {X} ß", "{X}", "ä"), "grüße ä ß");
}

#[test]
fn split_keeps_empty_parts() {
    assert_eq!(split("a:b:c", ':'), vec!["a", "b", "c"]);
    assert_eq!(split("abc", ':'), vec!["abc"]);
    assert_eq!(split("", ':'), vec![""]);
    assert_eq!(split("a::b", ':'), vec!["a", "", "b"]);
    assert_eq!(split(":a:", ':'), vec!["", "a", ""]);
}
