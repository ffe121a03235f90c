//! Polls: the lines that follow the poll marker.
//!
//! A line of the form `<text> (<n> votes)` or `<text> (<n> vote)` is an
//! option, where `<n>` is a decimal number that fits in 32 bits; a leading
//! `OPTION: ` is not part of the option's text. Every other line belongs to
//! the title.

use crate::entity::{option_views, texts, MessageBody, MessageBodyView, PollOption, PollOptionView};
use crate::text::{
    decimal_of, digits_start, ends_with, from_chars, has_suffix, is_decimal_digit, matches_at,
    parse_decimal, starts_with, to_chars,
};
use vstd::prelude::*;
use vstd::string::StringExecFns;

verus! {

/// May begin the line of an option.
pub const OPTION_PREFIX: &'static str = "OPTION: ";

/// Ends the line of an option with several votes, or none.
pub const VOTES_SUFFIX: &'static str = " votes)";

/// Ends the line of an option with one vote.
pub const VOTE_SUFFIX: &'static str = " vote)";

/// Stands between an option's text and its number of votes.
pub const COUNT_OPENING: &'static str = " (";

/// The line without the words that end an option's line, where it ends
/// with them.
pub open spec fn before_votes(line: Seq<char>) -> Option<Seq<char>> {
    if ends_with(line, VOTES_SUFFIX@) {
        Some(line.subrange(0, line.len() - VOTES_SUFFIX@.len()))
    } else if ends_with(line, VOTE_SUFFIX@) {
        Some(line.subrange(0, line.len() - VOTE_SUFFIX@.len()))
    } else {
        None
    }
}

/// The text of an option, without the prefix that may begin its line.
pub open spec fn option_text(t: Seq<char>) -> Seq<char> {
    if starts_with(t, OPTION_PREFIX@) {
        t.subrange(OPTION_PREFIX@.len() as int, t.len() as int)
    } else {
        t
    }
}

/// The option that a line states, where it states one.
pub open spec fn poll_option_of(line: Seq<char>) -> Option<PollOptionView> {
    match before_votes(line) {
        None => None,
        Some(core) => {
            let k = digits_start(core);
            let head = core.subrange(0, k);
            match decimal_of(core.subrange(k, core.len() as int)) {
                Some(n) => if n <= u32::MAX && ends_with(head, COUNT_OPENING@) {
                    Some(
                        PollOptionView {
                            option: option_text(head.subrange(0, head.len() - COUNT_OPENING@.len())),
                            votes: n as u32,
                        },
                    )
                } else {
                    None
                },
                None => None,
            }
        },
    }
}

/// Title lines so far, joined by line feeds.
pub open spec fn join_line(so_far: Option<Seq<char>>, line: Seq<char>) -> Seq<char> {
    match so_far {
        Some(t) => t.push('\n') + line,
        None => line,
    }
}

/// A text that may not have begun yet; empty where it has not.
pub open spec fn text_or_empty(t: Option<Seq<char>>) -> Seq<char> {
    match t {
        Some(t) => t,
        None => Seq::empty(),
    }
}

/// Title and options, as read from some lines.
pub struct PollParts {
    pub title: Option<Seq<char>>,
    pub options: Seq<PollOptionView>,
}

/// What one more line adds to title and options.
pub open spec fn poll_step(parts: PollParts, line: Seq<char>) -> PollParts {
    match poll_option_of(line) {
        Some(o) => PollParts { title: parts.title, options: parts.options.push(o) },
        None => PollParts { title: Some(join_line(parts.title, line)), options: parts.options },
    }
}

/// Title and options of the poll that `lines` describe.
pub open spec fn poll_parts(lines: Seq<Seq<char>>) -> PollParts
    decreases lines.len(),
{
    if lines.len() == 0 {
        PollParts { title: None, options: Seq::empty() }
    } else {
        poll_step(poll_parts(lines.drop_last()), lines.last())
    }
}

/// The poll that `lines` describe: the options in the order of their
/// lines, and the other lines as the title.
pub open spec fn poll_body(lines: Seq<Seq<char>>) -> MessageBodyView {
    let parts = poll_parts(lines);
    MessageBodyView::Poll { title: text_or_empty(parts.title), options: parts.options }
}

/// What a text that may not have begun yet holds.
pub open spec fn begun_view(t: Option<String>) -> Option<Seq<char>> {
    match t {
        Some(s) => Some(s@),
        None => None,
    }
}

/// What an option that may be missing holds.
pub open spec fn option_view(o: Option<PollOption>) -> Option<PollOptionView> {
    match o {
        Some(o) => Some(o@),
        None => None,
    }
}

/// Adds a line to a text that may not have begun yet.
pub fn push_line(so_far: Option<String>, line: &str) -> (r: String)
    ensures
        r@ == join_line(begun_view(so_far), line@),
{
    match so_far {
        Some(mut t) => {
            t.push('\n');
            t.append(line);
            t
        },
        None => String::from_str(line),
    }
}

/// The text, or the empty string for one that has not begun.
pub fn begun_or_empty(t: Option<String>) -> (r: String)
    ensures
        r@ == text_or_empty(begun_view(t)),
{
    match t {
        Some(s) => s,
        None => String::new(),
    }
}

/// Reads a line as an option of a poll.
pub fn parse_poll_option(line: &str) -> (r: Option<PollOption>)
    ensures
        option_view(r) == poll_option_of(line@),
{
    let v = to_chars(line);
    let votes = to_chars(VOTES_SUFFIX);
    let vote = to_chars(VOTE_SUFFIX);
    let core_end: usize = if has_suffix(&v, &votes) {
        v.len() - votes.len()
    } else if has_suffix(&v, &vote) {
        v.len() - vote.len()
    } else {
        return None;
    };
    let ghost core = v@.subrange(0, core_end as int);
    assert(before_votes(line@) == Some(core));
    let mut k: usize = core_end;
    assert(core.subrange(0, k as int) =~= core);
    while k > 0 && is_decimal_digit(v[k - 1])
        invariant
            k <= core_end <= v.len(),
            core == v@.subrange(0, core_end as int),
            digits_start(core) == digits_start(core.subrange(0, k as int)),
        decreases k,
    {
        assert(core.subrange(0, k as int).drop_last() =~= core.subrange(0, k - 1));
        k -= 1;
    }
    assert(digits_start(core) == k);
    assert(core.subrange(k as int, core.len() as int) =~= v@.subrange(k as int, core_end as int));
    let count = match parse_decimal(&v, k, core_end) {
        Some(n) => n,
        None => {
            return None;
        },
    };
    let opening = to_chars(COUNT_OPENING);
    let ghost head = core.subrange(0, k as int);
    if opening.len() > k || !matches_at(&v, &opening, k - opening.len()) {
        assert(!ends_with(head, opening@)) by {
            if opening.len() <= k {
                assert(head.subrange(k - opening.len(), k as int) =~= v@.subrange(
                    k - opening.len(),
                    k as int,
                ));
            }
        }
        return None;
    }
    let text_end: usize = k - opening.len();
    assert(ends_with(head, opening@)) by {
        assert(head.subrange(k - opening.len(), k as int) =~= v@.subrange(
            k - opening.len(),
            k as int,
        ));
    }
    let ghost t = head.subrange(0, head.len() - opening.len());
    assert(t =~= v@.subrange(0, text_end as int));
    let prefix = to_chars(OPTION_PREFIX);
    let text_start: usize = if prefix.len() <= text_end && matches_at(&v, &prefix, 0) {
        assert(t.subrange(0, prefix.len() as int) =~= v@.subrange(0, prefix.len() as int));
        assert(t.subrange(prefix.len() as int, t.len() as int) =~= v@.subrange(
            prefix.len() as int,
            text_end as int,
        ));
        prefix.len()
    } else {
        assert(!starts_with(t, prefix@)) by {
            if prefix.len() <= text_end {
                assert(t.subrange(0, prefix.len() as int) =~= v@.subrange(0, prefix.len() as int));
            }
        }
        assert(t =~= v@.subrange(0, text_end as int));
        0
    };
    Some(PollOption { option: from_chars(&v, text_start, text_end), votes: count })
}

/// Reads the lines `lines[from..to]`, which follow the poll marker, as a
/// poll.
pub fn parse_poll(lines: &Vec<String>, from: usize, to: usize) -> (r: MessageBody)
    requires
        from <= to <= lines.len(),
    ensures
        r@ == poll_body(texts(lines@).subrange(from as int, to as int)),
{
    let ghost all = texts(lines@).subrange(from as int, to as int);
    let mut title: Option<String> = None;
    let mut options: Vec<PollOption> = Vec::new();
    let mut i: usize = from;
    assert(all.subrange(0, 0) =~= Seq::<Seq<char>>::empty());
    assert(option_views(options@) =~= Seq::<PollOptionView>::empty());
    while i < to
        invariant
            from <= i <= to <= lines.len(),
            all == texts(lines@).subrange(from as int, to as int),
            begun_view(title) == poll_parts(all.subrange(0, i - from)).title,
            option_views(options@) == poll_parts(all.subrange(0, i - from)).options,
        decreases to - i,
    {
        let line = lines[i].as_str();
        proof {
            assert(all.subrange(0, i + 1 - from).drop_last() =~= all.subrange(0, i - from));
            assert(all.subrange(0, i + 1 - from).last() == line@);
        }
        match parse_poll_option(line) {
            Some(o) => {
                assert(option_views(options@.push(o)) =~= option_views(options@).push(o@));
                options.push(o);
            },
            None => {
                title = Some(push_line(title, line));
            },
        }
        i += 1;
    }
    assert(all.subrange(0, to - from) =~= all);
    MessageBody::Poll { title: begun_or_empty(title), options }
}

} // verus!
