//! What holds of every export, stated over the model of the parser.

use crate::body::{
    classified, has_edit_marker, sender_split, without_edit_marker, BodyStartView,
    SENDER_SEPARATOR,
};
use crate::boundary::{
    boundary_rest, boundary_stamp, is_boundary, law_boundary_parts_make_the_line, DASH,
};
use crate::text::lemma_find_from;
use crate::entity::{MessageBodyView, MessageTypeView, MessageView};
use crate::parser::{
    accumulates, body_of, items_from, lemma_next_boundary, lemma_step_advances, next_boundary,
    step, LineErrorView, MessageParser, Step,
};
use crate::timestamp::{timestamp_of, Timestamp};
use vstd::prelude::*;

verus! {

/// The line starts a message, and its date and time can be read.
pub open spec fn starts_message(line: Seq<char>) -> bool {
    is_boundary(line) && timestamp_of(boundary_stamp(line)->0) is Some
}

/// The date and time of a line that starts a message.
pub open spec fn sent_at(line: Seq<char>) -> Timestamp {
    timestamp_of(boundary_stamp(line)->0)->0
}

/// Sender and body of a line that starts a user's message.
pub open spec fn said_by(line: Seq<char>) -> (Seq<char>, Seq<char>) {
    match sender_split(boundary_rest(line)) {
        Some(parts) => parts,
        None => (Seq::empty(), Seq::empty()),
    }
}

/// An export of one line that starts a message gives exactly one message.
/// It carries the date and time of the line. Without a sender it is a
/// notice with the text after the timestamp; with a sender its body is the
/// one that the first rule that applies to the text after the sender gives.
pub proof fn law_single_line_gives_one_message(line: Seq<char>)
    requires
        starts_message(line),
    ensures
        items_from(seq![line], 0) == seq![
            Ok::<MessageView, LineErrorView>(
                MessageView {
                    date_time: sent_at(line),
                    message_type: match sender_split(boundary_rest(line)) {
                        None => MessageTypeView::System(boundary_rest(line)),
                        Some((sender, body)) => MessageTypeView::User {
                            sender,
                            body: body_of(classified(body), sent_at(line), Seq::empty()),
                        },
                    },
                },
            ),
        ],
{
    let lines = seq![line];
    lemma_step_advances(lines, 0);
    assert(lines.subrange(1, 1) =~= Seq::<Seq<char>>::empty());
    assert(step(lines, 0).position == 1);
    assert(items_from(lines, 1) =~= Seq::empty());
    assert(items_from(lines, 0) =~= seq![step(lines, 0).item->0]);
}

/// The lines of the text that the line at `pos` starts and the `n` lines
/// after it continue.
pub open spec fn kept_lines(lines: Seq<Seq<char>>, pos: int, n: int) -> Seq<Seq<char>> {
    seq![without_edit_marker(said_by(lines[pos]).1)] + lines.subrange(pos + 1, pos + n + 1)
}

/// A text of one line that starts a message and `n` lines that start none,
/// before the next line that starts a message or the end, gives a body of
/// `n + 1` lines: what follows the sender on the first line, without the
/// edit marker, and then the `n` lines as they are, in their order.
pub proof fn law_text_keeps_its_lines(lines: Seq<Seq<char>>, pos: int, n: int)
    requires
        0 <= pos,
        0 <= n,
        pos + n < lines.len(),
        starts_message(lines[pos]),
        sender_split(boundary_rest(lines[pos])) is Some,
        classified(said_by(lines[pos]).1) is Text,
        forall|i: int| pos < i <= pos + n ==> !is_boundary(#[trigger] lines[i]),
        pos + n + 1 == lines.len() || is_boundary(lines[pos + n + 1]),
    ensures
        step(lines, pos) == (Step {
            item: Some(
                Ok(
                    MessageView {
                        date_time: sent_at(lines[pos]),
                        message_type: MessageTypeView::User {
                            sender: said_by(lines[pos]).0,
                            body: MessageBodyView::Text {
                                text: kept_lines(lines, pos, n),
                                edited: has_edit_marker(said_by(lines[pos]).1),
                            },
                        },
                    },
                ),
            ),
            position: pos + n + 1,
        }),
        kept_lines(lines, pos, n).len() == n + 1,
        kept_lines(lines, pos, n)[0] == without_edit_marker(said_by(lines[pos]).1),
        forall|i: int| 1 <= i <= n ==> #[trigger] kept_lines(lines, pos, n)[i] == lines[pos + i],
{
    lemma_next_boundary(lines, pos + 1);
    let end = next_boundary(lines, pos + 1);
    if end < pos + n + 1 {
        assert(is_boundary(lines[end]));
    }
    if end > pos + n + 1 {
        assert(!is_boundary(lines[pos + n + 1]));
    }
    assert(end == pos + n + 1);
}

/// The body of a text has at least one line.
pub proof fn law_text_has_a_line(start: BodyStartView, sent: Timestamp, following: Seq<Seq<char>>)
    ensures
        body_of(start, sent, following) matches MessageBodyView::Text { text, .. } ==> text.len()
            >= 1,
{
    if start is Poll {
    }
    if start is Event {
    }
}

/// What two parsers hand out depends on their lines and on how many of
/// them are taken, and on nothing else: the same text read twice gives the
/// same messages.
pub proof fn law_same_lines_same_messages(a: MessageParser, b: MessageParser)
    requires
        a.lines() == b.lines(),
        a.position() == b.position(),
    ensures
        a.upcoming() == b.upcoming(),
        step(a.lines(), a.position()) == step(b.lines(), b.position()),
{
}

/// Taking the messages one by one gives what taking them all gives: the
/// outcome of the next call, and then all that comes after it.
pub proof fn law_one_by_one(lines: Seq<Seq<char>>, pos: int)
    requires
        0 <= pos < lines.len(),
    ensures
        step(lines, pos).item is Some,
        items_from(lines, pos) == seq![step(lines, pos).item->0] + items_from(
            lines,
            step(lines, pos).position,
        ),
{
    lemma_step_advances(lines, pos);
}

/// A message with nothing but its own lines after it ends with the input:
/// it is handed out whole, all lines are taken, and the call after it says
/// that nothing is left.
pub proof fn law_last_message_ends_with_input(lines: Seq<Seq<char>>, pos: int)
    requires
        0 <= pos < lines.len(),
        starts_message(lines[pos]),
        forall|i: int| pos < i < lines.len() ==> !is_boundary(#[trigger] lines[i]),
        pos + 1 == lines.len() || (sender_split(boundary_rest(lines[pos])) is Some && accumulates(
            classified(said_by(lines[pos]).1),
        )),
    ensures
        step(lines, pos).item matches Some(Ok(_)),
        step(lines, pos).position == lines.len(),
        step(lines, lines.len() as int) == (Step { item: None, position: lines.len() as int }),
        items_from(lines, pos).len() == 1,
{
    lemma_next_boundary(lines, pos + 1);
    let end = next_boundary(lines, pos + 1);
    if end < lines.len() {
        assert(is_boundary(lines[end]));
    }
    lemma_step_advances(lines, pos);
    assert(items_from(lines, lines.len() as int) =~= Seq::empty());
}

/// A line that starts a user's message is made of its timestamp, the dash,
/// the sender, the separator and the body, in this order and with nothing
/// else: the first line of a text is the line without what stands before
/// the body.
pub proof fn law_first_line_is_the_line_without_its_prefix(line: Seq<char>)
    requires
        is_boundary(line),
        sender_split(boundary_rest(line)) is Some,
    ensures
        boundary_stamp(line) matches Some(stamp) && line == stamp + DASH@ + said_by(line).0
            + SENDER_SEPARATOR@ + said_by(line).1,
{
    law_boundary_parts_make_the_line(line);
    let rest = boundary_rest(line);
    lemma_find_from(rest, SENDER_SEPARATOR@, 0);
    let sender = said_by(line).0;
    let body = said_by(line).1;
    assert(rest =~= sender + SENDER_SEPARATOR@ + body);
    let stamp = boundary_stamp(line)->0;
    assert(stamp + DASH@ + (sender + SENDER_SEPARATOR@ + body) =~= stamp + DASH@ + sender
        + SENDER_SEPARATOR@ + body);
}

} // verus!
