//! What the first line of a message tells about its body.
//!
//! The text after the sender is tried against a fixed list of rules, in
//! order, and the first rule that applies decides the kind of the body.

use crate::text::{
    find, find_after, find_from, first_occurrence, from_chars, has_prefix, has_suffix,
    lemma_find_from, lemma_first_occurrence_is, occurs_at, same_text, starts_with, ends_with,
    to_chars,
};
use vstd::prelude::*;
use vstd::string::StringExecFns;

verus! {

/// Stands between the sender and the body.
pub const SENDER_SEPARATOR: &'static str = ": ";

/// The whole body of a message whose media the export left out.
pub const MEDIA_OMITTED: &'static str = "<Media omitted>";

/// The whole first line of a poll.
pub const POLL_MARKER: &'static str = "POLL:";

/// Begins the first line of an event; the title follows.
pub const EVENT_PREFIX: &'static str = "EVENT: ";

/// Begins a shared location; latitude, a comma and longitude follow.
pub const LOCATION_PREFIX: &'static str = "location: https://maps.google.com/?q=";

/// Stands between latitude and longitude.
pub const COORDINATE_SEPARATOR: &'static str = ",";

/// Ends the line of an attached file; the file's name stands before it.
pub const ATTACHMENT_SUFFIX: &'static str = " (file attached)";

/// Marks a text that its sender changed after sending it.
pub const EDIT_MARKER: &'static str = "<This message was edited>";

/// What the first line of a user's message says about its body.
#[derive(Debug, Clone, PartialEq, Eq)]
pub enum BodyStart {
    Omitted,
    Poll,
    /// An event, with its title.
    Event(String),
    /// A location, with the texts of latitude and longitude.
    Location(String, String),
    /// An attachment, with the file's name.
    Attachment(String),
    /// Free text without the edit marker, and whether the marker was there.
    Text(String, bool),
}

/// What a `BodyStart` holds.
pub enum BodyStartView {
    Omitted,
    Poll,
    Event(Seq<char>),
    Location(Seq<char>, Seq<char>),
    Attachment(Seq<char>),
    Text(Seq<char>, bool),
}

impl View for BodyStart {
    type V = BodyStartView;

    open spec fn view(&self) -> BodyStartView {
        match *self {
            BodyStart::Omitted => BodyStartView::Omitted,
            BodyStart::Poll => BodyStartView::Poll,
            BodyStart::Event(title) => BodyStartView::Event(title@),
            BodyStart::Location(lat, long) => BodyStartView::Location(lat@, long@),
            BodyStart::Attachment(name) => BodyStartView::Attachment(name@),
            BodyStart::Text(text, edited) => BodyStartView::Text(text@, edited),
        }
    }
}

/// Sender and body of the text that follows the timestamp: what stands
/// before and after the first separator. `None` where there is no separator.
pub open spec fn sender_split(rest: Seq<char>) -> Option<(Seq<char>, Seq<char>)> {
    match first_occurrence(rest, SENDER_SEPARATOR@) {
        Some(i) => Some(
            (rest.subrange(0, i), rest.subrange(i + SENDER_SEPARATOR@.len(), rest.len() as int)),
        ),
        None => None,
    }
}

/// The text holds the edit marker.
pub open spec fn has_edit_marker(body: Seq<char>) -> bool {
    first_occurrence(body, EDIT_MARKER@) is Some
}

/// The text without the first edit marker in it.
pub open spec fn without_edit_marker(body: Seq<char>) -> Seq<char> {
    match first_occurrence(body, EDIT_MARKER@) {
        Some(i) => body.subrange(0, i) + body.subrange(
            i + EDIT_MARKER@.len(),
            body.len() as int,
        ),
        None => body,
    }
}

/// The latitude in a body that begins with the location prefix: what stands
/// between the prefix and the first comma after it, or all that follows the
/// prefix where there is no comma.
pub open spec fn latitude_text(body: Seq<char>) -> Seq<char> {
    let from = LOCATION_PREFIX@.len() as int;
    match find_from(body, COORDINATE_SEPARATOR@, from) {
        Some(i) => body.subrange(from, i),
        None => body.subrange(from, body.len() as int),
    }
}

/// The longitude in a body that begins with the location prefix: what
/// follows the first comma after the prefix, or nothing where there is no
/// comma.
pub open spec fn longitude_text(body: Seq<char>) -> Seq<char> {
    let from = LOCATION_PREFIX@.len() as int;
    match find_from(body, COORDINATE_SEPARATOR@, from) {
        Some(i) => body.subrange(i + COORDINATE_SEPARATOR@.len(), body.len() as int),
        None => Seq::empty(),
    }
}

/// The rules, in the order in which they are tried.
pub open spec fn classified(body: Seq<char>) -> BodyStartView {
    if body == MEDIA_OMITTED@ {
        BodyStartView::Omitted
    } else if body == POLL_MARKER@ {
        BodyStartView::Poll
    } else if starts_with(body, EVENT_PREFIX@) {
        BodyStartView::Event(body.subrange(EVENT_PREFIX@.len() as int, body.len() as int))
    } else if starts_with(body, LOCATION_PREFIX@) {
        BodyStartView::Location(latitude_text(body), longitude_text(body))
    } else if ends_with(body, ATTACHMENT_SUFFIX@) {
        BodyStartView::Attachment(body.subrange(0, body.len() - ATTACHMENT_SUFFIX@.len()))
    } else {
        BodyStartView::Text(without_edit_marker(body), has_edit_marker(body))
    }
}

/// Splits the text that follows the timestamp into sender and body.
pub fn split_sender(rest: &str) -> (r: Option<(String, String)>)
    ensures
        match r {
            Some((sender, body)) => sender_split(rest@) == Some((sender@, body@)),
            None => sender_split(rest@) is None,
        },
{
    let v = to_chars(rest);
    let separator = to_chars(SENDER_SEPARATOR);
    match find(&v, &separator) {
        Some(i) => Some((from_chars(&v, 0, i), from_chars(&v, i + separator.len(), v.len()))),
        None => None,
    }
}

/// Takes the first edit marker out of a text, and tells whether there was
/// one.
pub fn strip_edit_marker(body: &str) -> (r: (String, bool))
    ensures
        r.0@ == without_edit_marker(body@),
        r.1 == has_edit_marker(body@),
{
    let v = to_chars(body);
    strip_marker_of(&v)
}

fn strip_marker_of(v: &Vec<char>) -> (r: (String, bool))
    ensures
        r.0@ == without_edit_marker(v@),
        r.1 == has_edit_marker(v@),
{
    let marker = to_chars(EDIT_MARKER);
    match find(v, &marker) {
        Some(i) => {
            let mut kept = from_chars(v, 0, i);
            let tail = from_chars(v, i + marker.len(), v.len());
            kept.append(tail.as_str());
            (kept, true)
        },
        None => {
            let kept = from_chars(v, 0, v.len());
            assert(v@.subrange(0, v@.len() as int) =~= v@);
            (kept, false)
        },
    }
}

/// Decides what the first line of a user's message says about its body.
pub fn classify_body(body: &str) -> (r: BodyStart)
    ensures
        r@ == classified(body@),
{
    let v = to_chars(body);
    let omitted = to_chars(MEDIA_OMITTED);
    if same_text(&v, &omitted) {
        return BodyStart::Omitted;
    }
    let poll = to_chars(POLL_MARKER);
    if same_text(&v, &poll) {
        return BodyStart::Poll;
    }
    let event = to_chars(EVENT_PREFIX);
    if has_prefix(&v, &event) {
        return BodyStart::Event(from_chars(&v, event.len(), v.len()));
    }
    let location = to_chars(LOCATION_PREFIX);
    if has_prefix(&v, &location) {
        let comma = to_chars(COORDINATE_SEPARATOR);
        return match find_after(&v, &comma, location.len()) {
            Some(i) => BodyStart::Location(
                from_chars(&v, location.len(), i),
                from_chars(&v, i + comma.len(), v.len()),
            ),
            None => BodyStart::Location(from_chars(&v, location.len(), v.len()), String::new()),
        };
    }
    let attached = to_chars(ATTACHMENT_SUFFIX);
    if has_suffix(&v, &attached) {
        return BodyStart::Attachment(from_chars(&v, 0, v.len() - attached.len()));
    }
    let (text, edited) = strip_marker_of(&v);
    BodyStart::Text(text, edited)
}

/// The edit marker carries nothing but the flag: a text that holds the
/// marker once, at any place, is stored as the text around the marker with
/// the flag set, and a text without the marker is stored as it is with the
/// flag clear.
pub proof fn law_edit_marker_round_trip(before: Seq<char>, after: Seq<char>)
    requires
        !has_edit_marker(before + after),
    ensures
        without_edit_marker(before + EDIT_MARKER@ + after) == before + after,
        has_edit_marker(before + EDIT_MARKER@ + after),
        without_edit_marker(before + after) == before + after,
{
    reveal_strlit("<This message was edited>");
    let m = EDIT_MARKER@;
    let s = before + m + after;
    let i = before.len() as int;
    assert(m.len() == 25);
    assert(s.subrange(i, i + m.len()) =~= m);
    lemma_find_from(before + after, m, 0);
    assert forall|j: int| 0 <= j < i implies !occurs_at(s, m, j) by {
        if occurs_at(s, m, j) {
            if j + m.len() <= i {
                assert((before + after).subrange(j, j + m.len()) =~= s.subrange(j, j + m.len()));
                assert(occurs_at(before + after, m, j));
            } else {
                let k = i - j;
                assert(s.subrange(j, j + m.len())[k] == s[i]);
                assert(s[i] == m[0]);
                assert(m[k] == '<');
                assert(k == 1 || k == 2 || k == 3 || k == 4 || k == 5 || k == 6 || k == 7 || k == 8
                    || k == 9 || k == 10 || k == 11 || k == 12 || k == 13 || k == 14 || k == 15
                    || k == 16 || k == 17 || k == 18 || k == 19 || k == 20 || k == 21 || k == 22
                    || k == 23 || k == 24);
                assert(false);
            }
        }
    }
    lemma_first_occurrence_is(s, m, i);
    assert(s.subrange(0, i) + s.subrange(i + m.len(), s.len() as int) =~= before + after);
}

/// The rules do not overlap beyond their order. The first two ask for the
/// whole body; a body that begins as an event or a location is that, however
/// it ends; a body that ends as an attachment is one unless it begins as an
/// event or a location; every other body is text.
pub proof fn law_rules_in_order(body: Seq<char>)
    ensures
        classified(body) is Omitted <==> body == MEDIA_OMITTED@,
        classified(body) is Poll <==> body == POLL_MARKER@,
        classified(body) is Event <==> starts_with(body, EVENT_PREFIX@),
        classified(body) is Location <==> starts_with(body, LOCATION_PREFIX@),
        classified(body) is Attachment <==> ends_with(body, ATTACHMENT_SUFFIX@) && !starts_with(
            body,
            EVENT_PREFIX@,
        ) && !starts_with(body, LOCATION_PREFIX@),
        classified(body) is Text <==> body != MEDIA_OMITTED@ && body != POLL_MARKER@
            && !starts_with(body, EVENT_PREFIX@) && !starts_with(body, LOCATION_PREFIX@)
            && !ends_with(body, ATTACHMENT_SUFFIX@),
{
    reveal_strlit("<Media omitted>");
    reveal_strlit("POLL:");
    reveal_strlit("EVENT: ");
    reveal_strlit("location: https://maps.google.com/?q=");
    reveal_strlit(" (file attached)");
    let omitted = MEDIA_OMITTED@;
    let poll = POLL_MARKER@;
    let event = EVENT_PREFIX@;
    let location = LOCATION_PREFIX@;
    let attached = ATTACHMENT_SUFFIX@;
    assert(omitted.len() == 15 && omitted[0] == '<' && omitted[14] == '>');
    assert(poll.len() == 5 && poll[0] == 'P' && poll[4] == ':');
    assert(event.len() == 7 && event[0] == 'E');
    assert(location.len() == 37 && location[0] == 'l');
    assert(attached.len() == 16 && attached[15] == ')');
    if starts_with(body, event) {
        assert(body.subrange(0, 7)[0] == body[0]);
    }
    if starts_with(body, location) {
        assert(body.subrange(0, 37)[0] == body[0]);
    }
    if ends_with(body, attached) {
        assert(body.subrange(body.len() - 16, body.len() as int)[15] == body[body.len() - 1]);
    }
}

} // verus!
