//! Regular expressions: the calls into the engine that the library makes.

use regex::Regex;
use vstd::prelude::*;

verus! {

/// `regex::Regex`, a compiled expression. Nothing inside it is read here.
#[verifier::external_type_specification]
#[verifier::external_body]
pub struct ExRegex(regex::Regex);

/// `regex::Error`, why a pattern did not compile. Nothing inside it is read
/// here.
#[verifier::external_type_specification]
#[verifier::external_body]
pub struct ExRegexError(regex::Error);

/// The pattern text that a compiled expression was built from.
pub uninterp spec fn pattern_text(re: Regex) -> Seq<char>;

/// The expression was built by `regex::Regex::new`, which leaves every
/// setting of the engine as it comes. What such an expression matches
/// depends on its pattern alone.
pub uninterp spec fn plainly_built(re: Regex) -> bool;

/// `regex::Regex::new` takes the pattern: it is an expression of the
/// engine's syntax, and no larger than the engine allows.
pub uninterp spec fn regex_compiles(pattern: Seq<char>) -> bool;

/// What the capture group `group` holds in the first match in `haystack` of
/// the expression plainly built from `pattern`; `None` where there is no
/// match, or no such group in it.
pub uninterp spec fn regex_capture(pattern: Seq<char>, haystack: Seq<char>, group: Seq<char>) -> Option<Seq<char>>;

/// Where the capture group `group` lies in the first match in `haystack`
/// of the expression plainly built from `pattern`: the offsets of its first
/// byte and of the byte after its last, counted in the bytes of `haystack`
/// as UTF-8. `None` where there is no match, or no such group in it.
pub uninterp spec fn regex_span(pattern: Seq<char>, haystack: Seq<char>, group: Seq<char>) -> Option<(int, int)>;

/// `haystack` with every match of the expression plainly built from
/// `pattern` replaced by `replacement`, the matches taken from left to
/// right.
pub uninterp spec fn regex_replace_all(pattern: Seq<char>, haystack: Seq<char>, replacement: Seq<char>) -> Seq<char>;

/// The expression plainly built from `pattern` matches somewhere in
/// `haystack`.
pub uninterp spec fn regex_is_match(pattern: Seq<char>, haystack: Seq<char>) -> bool;

/// Calls `regex::Regex::new`. Whether the pattern is taken depends on the
/// pattern alone, and nothing is promised about which patterns are. The
/// expression that comes back is plainly built, and remembers the pattern
/// it was built from.
#[verifier::external_body]
pub(crate) fn compile(pattern: &str) -> (r: Result<Regex, regex::Error>)
    ensures
        r is Ok <==> regex_compiles(pattern@),
        r matches Ok(re) ==> pattern_text(re) == pattern@ && plainly_built(re),
{
    Regex::new(pattern)
}

/// Calls `regex::Regex::captures` and reads the group called `group` from
/// the result with `regex::Captures::name`. For a plainly built expression
/// the text of the group is a function of the pattern, the haystack and
/// the group's name.
#[verifier::external_body]
pub(crate) fn capture(re: &Regex, haystack: &str, group: &str) -> (r: Option<String>)
    requires
        plainly_built(*re),
    ensures
        r is Some <==> regex_capture(pattern_text(*re), haystack@, group@) is Some,
        r matches Some(s) ==> regex_capture(pattern_text(*re), haystack@, group@) == Some(s@),
{
    re.captures(haystack).and_then(|c| c.name(group)).map(|m| m.as_str().to_string())
}

/// Calls `regex::Regex::captures`, reads the group called `group` from the
/// result with `regex::Captures::name`, and its two offsets with
/// `regex::Match::start` and `regex::Match::end`. For a plainly built
/// expression the offsets are a function of the pattern, the haystack and
/// the group's name.
#[verifier::external_body]
pub(crate) fn span(re: &Regex, haystack: &str, group: &str) -> (r: Option<(usize, usize)>)
    requires
        plainly_built(*re),
    ensures
        r is Some <==> regex_span(pattern_text(*re), haystack@, group@) is Some,
        r matches Some((from, to)) ==> regex_span(pattern_text(*re), haystack@, group@) == Some(
            (from as int, to as int),
        ),
{
    re.captures(haystack).and_then(|c| c.name(group)).map(|m| (m.start(), m.end()))
}

/// Calls `regex::Regex::replace_all`. For a plainly built expression the
/// new text is a function of the pattern, the haystack and the
/// replacement.
#[verifier::external_body]
pub(crate) fn replace_every(re: &Regex, haystack: &str, replacement: &str) -> (r: String)
    requires
        plainly_built(*re),
    ensures
        r@ == regex_replace_all(pattern_text(*re), haystack@, replacement@),
{
    re.replace_all(haystack, replacement).into_owned()
}

/// Calls `regex::Regex::is_match`. For a plainly built expression, whether
/// there is a match is a function of the pattern and the haystack.
#[verifier::external_body]
pub(crate) fn matches_somewhere(re: &Regex, haystack: &str) -> (r: bool)
    requires
        plainly_built(*re),
    ensures
        r == regex_is_match(pattern_text(*re), haystack@),
{
    re.is_match(haystack)
}

} // verus!
