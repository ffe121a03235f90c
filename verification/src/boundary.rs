//! Where a message begins: the line that carries a timestamp.

use crate::pattern::{compile, pattern_text, plainly_built, regex_compiles, regex_span, span};
use crate::text::{cut, cut_at, from_chars, has_prefix, lemma_cut_at, starts_with, to_chars};
use vstd::string::StringExecFns;
use regex::Regex;
use vstd::prelude::*;

verus! {

/// The beginning of a line that starts a message: a date of three numbers
/// with slashes between them, a comma, the time as two numbers with a colon
/// between them, a word for the half of the day, and the dash that ends the
/// timestamp.
pub const BOUNDARY_PATTERN: &'static str = r"(?<date_time>^\d+\/\d+\/\d+,\s\d+:\d+\s\S+) - ";

/// The name of the group that holds the timestamp.
pub const STAMP_GROUP: &'static str = "date_time";

/// Stands between the timestamp and the rest of the line.
pub const DASH: &'static str = " - ";

/// The timestamp of a line that starts a message, and what follows the
/// timestamp and the dash. A line starts a message where the boundary
/// pattern matches it with the timestamp at its very beginning and the
/// dash right after the timestamp.
pub open spec fn boundary_parts(line: Seq<char>) -> Option<(Seq<char>, Seq<char>)> {
    match regex_span(BOUNDARY_PATTERN@, line, STAMP_GROUP@) {
        Some((from, to)) => if from == 0 {
            match cut_at(line, to) {
                Some((stamp, tail)) => if starts_with(tail, DASH@) {
                    Some((stamp, tail.subrange(DASH@.len() as int, tail.len() as int)))
                } else {
                    None
                },
                None => None,
            }
        } else {
            None
        },
        None => None,
    }
}

/// The timestamp at the beginning of a line that starts a message; `None`
/// for a line that starts none.
pub open spec fn boundary_stamp(line: Seq<char>) -> Option<Seq<char>> {
    match boundary_parts(line) {
        Some((stamp, _)) => Some(stamp),
        None => None,
    }
}

/// What follows the timestamp and the dash in a line that starts a message.
pub open spec fn boundary_rest(line: Seq<char>) -> Seq<char> {
    match boundary_parts(line) {
        Some((_, rest)) => rest,
        None => Seq::empty(),
    }
}

/// The line starts a message.
pub open spec fn is_boundary(line: Seq<char>) -> bool {
    boundary_stamp(line) is Some
}

/// A line that starts a message is its timestamp, the dash and the rest.
pub proof fn law_boundary_parts_make_the_line(line: Seq<char>)
    ensures
        boundary_parts(line) matches Some((stamp, rest)) ==> line == stamp + DASH@ + rest,
{
    if let Some((from, to)) = regex_span(BOUNDARY_PATTERN@, line, STAMP_GROUP@) {
        lemma_cut_at(line, to);
        if let Some((stamp, tail)) = cut_at(line, to) {
            if starts_with(tail, DASH@) {
                let rest = tail.subrange(DASH@.len() as int, tail.len() as int);
                assert(tail =~= DASH@ + rest);
                assert(stamp + (DASH@ + rest) =~= stamp + DASH@ + rest);
            }
        }
    }
}

/// The engine did not take the boundary pattern.
#[derive(Debug, Clone, Copy, PartialEq, Eq)]
pub struct PatternRejected;

/// The two parts of a line that starts a message.
#[derive(Debug, Clone, PartialEq, Eq)]
pub struct Boundary {
    /// The timestamp, as it is written.
    pub stamp: String,
    /// What follows the timestamp and the dash.
    pub rest: String,
}

/// Tells the lines that start a message from those that continue one.
pub struct BoundaryDetector {
    pattern: Regex,
}

impl BoundaryDetector {
    #[verifier::type_invariant]
    spec fn holds_boundary_pattern(self) -> bool {
        pattern_text(self.pattern) == BOUNDARY_PATTERN@ && plainly_built(self.pattern)
    }

    /// Compiles the boundary pattern, once for all the lines to come. There
    /// is a detector if and only if the engine takes the pattern.
    pub fn new() -> (r: Result<BoundaryDetector, PatternRejected>)
        ensures
            r is Ok <==> regex_compiles(BOUNDARY_PATTERN@),
            r matches Ok(d) ==> d.pattern() == BOUNDARY_PATTERN@,
    {
        BoundaryDetector::from_compiled(compile(BOUNDARY_PATTERN))
    }

    /// The pattern that the detector was compiled from.
    pub closed spec fn pattern(self) -> Seq<char> {
        pattern_text(self.pattern)
    }

    /// The compiled expression that the detector holds.
    pub closed spec fn compiled(self) -> Regex {
        self.pattern
    }

    /// A detector from what compiling the boundary pattern gave: the
    /// detector that holds the compiled expression, where there is one.
    pub(crate) fn from_compiled(compiled: Result<Regex, regex::Error>) -> (r: Result<
        BoundaryDetector,
        PatternRejected,
    >)
        requires
            compiled matches Ok(re) ==> pattern_text(re) == BOUNDARY_PATTERN@ && plainly_built(re),
        ensures
            r is Ok <==> compiled is Ok,
            r matches Ok(d) ==> compiled == Ok::<Regex, regex::Error>(d.compiled()),
    {
        match compiled {
            Ok(pattern) => Ok(BoundaryDetector { pattern }),
            Err(_) => Err(PatternRejected),
        }
    }

    /// Whether `line` starts a message.
    pub fn is_boundary(&self, line: &str) -> (r: bool)
        ensures
            r == is_boundary(line@),
    {
        self.detect(line).is_some()
    }

    /// The timestamp of `line` and what follows it, where `line` starts a
    /// message.
    pub fn detect(&self, line: &str) -> (r: Option<Boundary>)
        ensures
            match r {
                Some(b) => boundary_parts(line@) == Some((b.stamp@, b.rest@)) && boundary_stamp(
                    line@,
                ) == Some(b.stamp@) && b.rest@ == boundary_rest(line@) && line@ == b.stamp@ + DASH@
                    + b.rest@,
                None => !is_boundary(line@),
            },
    {
        proof {
            use_type_invariant(self);
            law_boundary_parts_make_the_line(line@);
        }
        let (from, to) = match span(&self.pattern, line, STAMP_GROUP) {
            Some(found) => found,
            None => {
                return None;
            },
        };
        if from != 0 {
            return None;
        }
        let (stamp, tail) = match cut(line, to) {
            Some(parts) => parts,
            None => {
                return None;
            },
        };
        let rest = to_chars(tail);
        let dash = to_chars(DASH);
        if has_prefix(&rest, &dash) {
            Some(
                Boundary {
                    stamp: String::from_str(stamp),
                    rest: from_chars(&rest, dash.len(), rest.len()),
                },
            )
        } else {
            None
        }
    }
}

} // verus!
