//! The matcher: does one rule's pattern accept one candidate name?

use regex::Regex;
use vstd::prelude::*;

verus! {

/// A compiled regular expression of the `regex` crate. Nothing of its inside
/// is visible to the proofs.
#[verifier::external_type_specification]
#[verifier::external_body]
pub struct ExRegex(regex::Regex);

/// The error with which the `regex` crate refuses a pattern.
#[verifier::external_type_specification]
#[verifier::external_body]
pub struct ExRegexError(regex::Error);

/// What `Regex::new` returns for `pattern`: the compiled expression, or the
/// error with which the pattern is refused.
pub uninterp spec fn regex_new(pattern: Seq<char>) -> Result<Regex, regex::Error>;

/// What `Regex::is_match` returns for a compiled expression and a haystack:
/// whether the expression matches anywhere in it.
pub uninterp spec fn regex_is_match(re: Regex, haystack: Seq<char>) -> bool;

/// Calls `Regex::new`. Trusted: what comes back depends on the pattern's
/// text alone, so it is the value that `regex_new` names. Nothing is
/// claimed of which patterns compile.
#[verifier::external_body]
fn compile(pattern: &str) -> (r: Result<Regex, regex::Error>)
    ensures
        r == regex_new(pattern@),
{
    Regex::new(pattern)
}

/// Calls `Regex::is_match`. Trusted: the answer depends on the expression
/// and the haystack alone, so it is the value that `regex_is_match` names.
#[verifier::external_body]
fn search(re: &Regex, haystack: &str) -> (found: bool)
    ensures
        found == regex_is_match(*re, haystack@),
{
    re.is_match(haystack)
}

/// How a rule compares its pattern with a name.
#[derive(Clone, Copy, Debug, PartialEq, Eq, Structural)]
pub enum MatchKind {
    /// Accepts every name.
    All,
    /// Accepts a name in which the regular expression matches somewhere.
    Regex,
    /// Accepts a name that starts with the pattern.
    Prefix,
    /// Accepts the name that equals the pattern.
    Exact,
    /// A kind this library does not know; it accepts nothing.
    Unknown,
}

/// A pattern that is no regular expression.
pub struct InvalidPattern {
    pub pattern: String,
}

/// The kind that a rule's tag selects.
pub open spec fn kind_of(tag: Seq<char>) -> MatchKind {
    if tag == "all"@ {
        MatchKind::All
    } else if tag == "regex"@ {
        MatchKind::Regex
    } else if tag == "prefix"@ {
        MatchKind::Prefix
    } else if tag == "exact"@ {
        MatchKind::Exact
    } else {
        MatchKind::Unknown
    }
}

/// The pattern that, under the kind `Regex`, accepts every name without
/// being compiled.
pub open spec fn wildcard() -> Seq<char> {
    "*"@
}

/// What a compiled expression answers for `candidate`; `None` where
/// compiling failed.
pub open spec fn compiled_verdict(compiled: Result<Regex, regex::Error>, candidate: Seq<char>)
    -> Option<bool> {
    match compiled {
        Ok(re) => Some(regex_is_match(re, candidate)),
        Err(_) => None,
    }
}

/// What the matcher answers: `None` where the pattern is refused, else
/// whether the pattern accepts the candidate.
pub open spec fn verdict(kind: MatchKind, pattern: Seq<char>, candidate: Seq<char>) -> Option<bool> {
    match kind {
        MatchKind::All => Some(true),
        MatchKind::Regex => if pattern == wildcard() {
            Some(true)
        } else {
            compiled_verdict(regex_new(pattern), candidate)
        },
        MatchKind::Prefix => Some(pattern.is_prefix_of(candidate)),
        MatchKind::Exact => Some(pattern == candidate),
        MatchKind::Unknown => Some(false),
    }
}

/// Whether two strings hold the same text.
pub fn same_text(a: &str, b: &str) -> (r: bool)
    ensures
        r == (a@ == b@),
{
    a.to_owned() == b.to_owned()
}

/// Whether `text` begins with `prefix`.
pub fn starts_with(text: &str, prefix: &str) -> (r: bool)
    ensures
        r == prefix@.is_prefix_of(text@),
{
    let n = prefix.unicode_len();
    if n > text.unicode_len() {
        return false;
    }
    same_text(text.substring_char(0, n), prefix)
}

/// Reads a rule's tag.
pub fn match_kind(tag: &str) -> (kind: MatchKind)
    ensures
        kind == kind_of(tag@),
{
    if same_text(tag, "all") {
        MatchKind::All
    } else if same_text(tag, "regex") {
        MatchKind::Regex
    } else if same_text(tag, "prefix") {
        MatchKind::Prefix
    } else if same_text(tag, "exact") {
        MatchKind::Exact
    } else {
        MatchKind::Unknown
    }
}

/// Runs a compiled expression on `candidate`, or reports `pattern` where
/// compiling it failed.
pub fn regex_verdict(compiled: Result<Regex, regex::Error>, pattern: &str, candidate: &str) -> (r:
    Result<bool, InvalidPattern>)
    ensures
        match r {
            Ok(found) => compiled_verdict(compiled, candidate@) == Some(found),
            Err(e) => compiled_verdict(compiled, candidate@).is_none() && e.pattern@ == pattern@,
        },
{
    match compiled {
        Ok(re) => Ok(search(&re, candidate)),
        Err(_) => Err(InvalidPattern { pattern: pattern.to_owned() }),
    }
}

/// Decides whether the rule with the tag `match_type` and the pattern
/// `match_string` accepts `namespace`. A pattern of the kind `Regex` that
/// is neither the wildcard nor a regular expression is an error.
pub fn matches(match_type: &str, match_string: &str, namespace: &str) -> (r: Result<
    bool,
    InvalidPattern,
>)
    ensures
        match r {
            Ok(accepted) => verdict(kind_of(match_type@), match_string@, namespace@) == Some(
                accepted,
            ),
            Err(e) => verdict(kind_of(match_type@), match_string@, namespace@).is_none()
                && e.pattern@ == match_string@,
        },
{
    match match_kind(match_type) {
        MatchKind::All => Ok(true),
        MatchKind::Regex => {
            if same_text(match_string, "*") {
                Ok(true)
            } else {
                regex_verdict(compile(match_string), match_string, namespace)
            }
        },
        MatchKind::Prefix => Ok(starts_with(namespace, match_string)),
        MatchKind::Exact => Ok(same_text(match_string, namespace)),
        MatchKind::Unknown => Ok(false),
    }
}

/// The four tags that select a kind other than `Unknown`.
pub proof fn known_tags()
    ensures
        kind_of("all"@) == MatchKind::All,
        kind_of("regex"@) == MatchKind::Regex,
        kind_of("prefix"@) == MatchKind::Prefix,
        kind_of("exact"@) == MatchKind::Exact,
{
    reveal_strlit("all");
    reveal_strlit("regex");
    reveal_strlit("prefix");
    reveal_strlit("exact");
    assert("all"@.len() == 3);
    assert("regex"@.len() == 5);
    assert("prefix"@.len() == 6);
    assert("exact"@.len() == 5);
    assert("regex"@[0] != "exact"@[0]);
}

/// An exact rule accepts a name if and only if the name is its pattern.
pub proof fn exact_accepts_only_its_pattern(pattern: Seq<char>, candidate: Seq<char>)
    ensures
        verdict(MatchKind::Exact, pattern, pattern) == Some(true),
        verdict(MatchKind::Exact, pattern, candidate) == Some(pattern == candidate),
{
}

/// A prefix rule accepts its pattern followed by anything, and nothing else.
pub proof fn prefix_accepts_its_extensions(pattern: Seq<char>, candidate: Seq<char>)
    ensures
        forall|suffix: Seq<char>| #[trigger]
            verdict(MatchKind::Prefix, pattern, pattern + suffix) == Some(true),
        verdict(MatchKind::Prefix, pattern, candidate) == Some(true) <==> exists|suffix: Seq<char>|
            candidate == #[trigger] (pattern + suffix),
        !pattern.is_prefix_of(candidate) ==> verdict(MatchKind::Prefix, pattern, candidate) == Some(
            false,
        ),
{
    assert forall|suffix: Seq<char>| #[trigger]
        verdict(MatchKind::Prefix, pattern, pattern + suffix) == Some(true) by {
        assert((pattern + suffix).subrange(0, pattern.len() as int) =~= pattern);
    }
    if pattern.is_prefix_of(candidate) {
        let rest = candidate.subrange(pattern.len() as int, candidate.len() as int);
        assert(candidate =~= pattern + rest);
    }
    if exists|suffix: Seq<char>| candidate == #[trigger] (pattern + suffix) {
        let suffix = choose|suffix: Seq<char>| candidate == #[trigger] (pattern + suffix);
        assert((pattern + suffix).subrange(0, pattern.len() as int) =~= pattern);
    }
}

/// Under the kind `Regex` the wildcard accepts every name, as a rule of the
/// kind `All` does with any pattern.
pub proof fn wildcard_regex_accepts_all(pattern: Seq<char>, candidate: Seq<char>)
    ensures
        verdict(MatchKind::All, pattern, candidate) == Some(true),
        verdict(MatchKind::Regex, wildcard(), candidate) == Some(true),
{
}

} // verus!
