use namespace_projects::matcher::{same_text, starts_with};
use namespace_projects::{match_kind, regex_verdict, MatchKind};

#[test]
fn exact_accepts_identical_strings_only() {
    assert_eq!(namespace_projects::matcher::matches("exact", "foo", "foo").ok(), Some(true));
    assert_eq!(namespace_projects::matcher::matches("exact", "", "").ok(), Some(true));
    assert_eq!(namespace_projects::matcher::matches("exact", "foo", "foobar").ok(), Some(false));
    assert_eq!(namespace_projects::matcher::matches("exact", "foo", "Foo").ok(), Some(false));
    assert_eq!(namespace_projects::matcher::matches("exact", "foo", "").ok(), Some(false));
}

#[test]
fn prefix_accepts_pattern_followed_by_anything() {
    assert_eq!(namespace_projects::matcher::matches("prefix", "foo", "foobar").ok(), Some(true));
    assert_eq!(namespace_projects::matcher::matches("prefix", "foo", "foo").ok(), Some(true));
    assert_eq!(namespace_projects::matcher::matches("prefix", "", "foo").ok(), Some(true));
    assert_eq!(namespace_projects::matcher::matches("prefix", "", "").ok(), Some(true));
    assert_eq!(namespace_projects::matcher::matches("prefix", "foo", "fo").ok(), Some(false));
    assert_eq!(namespace_projects::matcher::matches("prefix", "foo", "barfoo").ok(), Some(false));
    assert_eq!(namespace_projects::matcher::matches("prefix", "foo", "Foobar").ok(), Some(false));
}

#[test]
fn prefix_compares_text_beyond_ascii() {
    assert!(starts_with("größe-42", "größe"));
    assert!(!starts_with("große-42", "größe"));
    assert!(!starts_with("gr", "größe"));
    assert!(starts_with("日本語", "日本"));
}

#[test]
fn all_accepts_every_name() {
    assert_eq!(namespace_projects::matcher::matches("all", "", "foobar").ok(), Some(true));
    assert_eq!(namespace_projects::matcher::matches("all", "(", "").ok(), Some(true));
}

#[test]
fn wildcard_regex_equals_all() {
    for name in ["", "foobar", "kube-system", "*"] {
        assert_eq!(namespace_projects::matcher::matches("regex", "*", name).ok(), Some(true));
        assert_eq!(namespace_projects::matcher::matches("all", "x", name).ok(), Some(true));
    }
}

#[test]
fn regex_matches_anywhere_in_the_name() {
    assert_eq!(namespace_projects::matcher::matches("regex", "^f[o]+", "foobar").ok(), Some(true));
    assert_eq!(namespace_projects::matcher::matches("regex", "oba", "foobar").ok(), Some(true));
    assert_eq!(namespace_projects::matcher::matches("regex", "^b", "foobar").ok(), Some(false));
    assert_eq!(namespace_projects::matcher::matches("regex", "^foo$", "foobar").ok(), Some(false));
    assert_eq!(namespace_projects::matcher::matches("regex", "foobar", "foo").ok(), Some(false));
}

#[test]
fn broken_regex_is_an_error_with_its_pattern() {
    match namespace_projects::matcher::matches("regex", "(", "foobar") {
        Err(e) => assert_eq!(e.pattern, "("),
        Ok(_) => panic!("an unclosed group is no regular expression"),
    }
    match namespace_projects::matcher::matches("regex", "**", "foobar") {
        Err(e) => assert_eq!(e.pattern, "**"),
        Ok(_) => panic!("a doubled star is no regular expression"),
    }
}

#[test]
fn broken_pattern_matters_under_regex_only() {
    assert_eq!(namespace_projects::matcher::matches("exact", "(", "(").ok(), Some(true));
    assert_eq!(namespace_projects::matcher::matches("prefix", "(", "(a").ok(), Some(true));
    assert_eq!(namespace_projects::matcher::matches("other", "(", "(").ok(), Some(false));
}

#[test]
fn unknown_kind_accepts_nothing() {
    assert_eq!(namespace_projects::matcher::matches("suffix", "bar", "foobar").ok(), Some(false));
    assert_eq!(namespace_projects::matcher::matches("", "", "").ok(), Some(false));
    assert_eq!(namespace_projects::matcher::matches("Exact", "foo", "foo").ok(), Some(false));
}

#[test]
fn tags_select_their_kinds() {
    assert_eq!(match_kind("all"), MatchKind::All);
    assert_eq!(match_kind("regex"), MatchKind::Regex);
    assert_eq!(match_kind("prefix"), MatchKind::Prefix);
    assert_eq!(match_kind("exact"), MatchKind::Exact);
    assert_eq!(match_kind("ALL"), MatchKind::Unknown);
    assert_eq!(match_kind("glob"), MatchKind::Unknown);
}

#[test]
fn compiled_expression_is_run_on_the_candidate() {
    let found = regex_verdict(regex::Regex::new("b[a]r$"), "b[a]r$", "foobar");
    assert_eq!(found.ok(), Some(true));
    let missed = regex_verdict(regex::Regex::new("b[a]r$"), "b[a]r$", "barfoo");
    assert_eq!(missed.ok(), Some(false));
}

#[test]
fn failed_compilation_reports_the_pattern() {
    match regex_verdict(regex::Regex::new("a{2,1}"), "a{2,1}", "aa") {
        Err(e) => assert_eq!(e.pattern, "a{2,1}"),
        Ok(_) => panic!("a reversed repetition range is no regular expression"),
    }
}

#[test]
fn same_text_compares_whole_strings() {
    assert!(same_text("", ""));
    assert!(same_text("foo", "foo"));
    assert!(!same_text("foo", "fo"));
    assert!(!same_text("foo", "fOo"));
}
