//! The assembler: from the lines of an export to its messages.
//!
//! A line that starts a message is read for its timestamp, its sender and
//! the kind of its body. Where the body may run over several lines (text, a
//! poll, an event), the lines up to the next line that starts a message
//! belong to it. A line that should start a message and does not, or whose
//! timestamp cannot be read, is handed out as an error of its own, and the
//! messages after it still come.

use crate::body::{classified, classify_body, sender_split, split_sender, BodyStart, BodyStartView};
use crate::boundary::{
    boundary_rest, boundary_stamp, is_boundary, BoundaryDetector, PatternRejected,
    BOUNDARY_PATTERN,
};
use crate::pattern::regex_compiles;
use crate::entity::{texts, Message, MessageBody, MessageBodyView, MessageTypeView, MessageView};
use crate::event::{event_body, parse_event};
use crate::poll::{parse_poll, poll_body};
use crate::source::{lines_of, LineSource};
use crate::timestamp::{read_timestamp, timestamp_of, Timestamp};
use vstd::prelude::*;

verus! {

/// A line that gave no message.
#[derive(Debug, Clone, PartialEq, Eq)]
pub enum LineError {
    /// The line should start a message and does not; it is held here.
    Format(String),
    /// The line starts a message, but its date and time cannot be read; it
    /// is held here.
    Timestamp(String),
}

/// What a `LineError` holds.
pub enum LineErrorView {
    Format(Seq<char>),
    Timestamp(Seq<char>),
}

impl View for LineError {
    type V = LineErrorView;

    open spec fn view(&self) -> LineErrorView {
        match *self {
            LineError::Format(line) => LineErrorView::Format(line@),
            LineError::Timestamp(line) => LineErrorView::Timestamp(line@),
        }
    }
}

/// What a message or an error holds.
pub open spec fn result_view(item: Result<Message, LineError>) -> Result<MessageView, LineErrorView> {
    match item {
        Ok(m) => Ok(m@),
        Err(e) => Err(e@),
    }
}

/// What the outcome of one call holds.
pub open spec fn item_view(item: Option<Result<Message, LineError>>) -> Option<
    Result<MessageView, LineErrorView>,
> {
    match item {
        Some(i) => Some(result_view(i)),
        None => None,
    }
}

/// What a sequence of messages and errors holds.
pub open spec fn items_view(items: Seq<Result<Message, LineError>>) -> Seq<
    Result<MessageView, LineErrorView>,
> {
    items.map_values(|i: Result<Message, LineError>| result_view(i))
}

/// A body of this kind takes the lines that follow, up to the next line
/// that starts a message.
pub open spec fn accumulates(start: BodyStartView) -> bool {
    start is Poll || start is Event || start is Text
}

/// The body that begins with `start`, in a message sent at `sent`, with
/// the lines `following` after its first line.
pub open spec fn body_of(start: BodyStartView, sent: Timestamp, following: Seq<Seq<char>>) -> MessageBodyView {
    match start {
        BodyStartView::Omitted => MessageBodyView::Omitted,
        BodyStartView::Poll => poll_body(following),
        BodyStartView::Event(title) => event_body(title, sent, following),
        BodyStartView::Location(lat, long) => MessageBodyView::Location { lat, long },
        BodyStartView::Attachment(name) => MessageBodyView::Attachment(name),
        BodyStartView::Text(first, edited) => MessageBodyView::Text {
            text: seq![first] + following,
            edited,
        },
    }
}

/// The index of the first line at or after `from` that starts a message;
/// the number of lines where there is none.
pub open spec fn next_boundary(lines: Seq<Seq<char>>, from: int) -> int
    decreases lines.len() - from,
{
    if from < 0 || from >= lines.len() {
        lines.len() as int
    } else if is_boundary(lines[from]) {
        from
    } else {
        next_boundary(lines, from + 1)
    }
}

/// What one call hands out, and the index of the line that comes next
/// after it.
pub struct Step {
    pub item: Option<Result<MessageView, LineErrorView>>,
    pub position: int,
}

/// The message that the line at `pos` starts, sent at `sent`, and where
/// it ends.
pub open spec fn message_at(lines: Seq<Seq<char>>, pos: int, sent: Timestamp) -> Step {
    let rest = boundary_rest(lines[pos]);
    match sender_split(rest) {
        None => Step {
            item: Some(Ok(MessageView { date_time: sent, message_type: MessageTypeView::System(rest) })),
            position: pos + 1,
        },
        Some((sender, body)) => {
            let start = classified(body);
            let end = if accumulates(start) {
                next_boundary(lines, pos + 1)
            } else {
                pos + 1
            };
            Step {
                item: Some(
                    Ok(
                        MessageView {
                            date_time: sent,
                            message_type: MessageTypeView::User {
                                sender,
                                body: body_of(start, sent, lines.subrange(pos + 1, end)),
                            },
                        },
                    ),
                ),
                position: end,
            }
        },
    }
}

/// One call on `lines`, of which `pos` were taken already.
pub open spec fn step(lines: Seq<Seq<char>>, pos: int) -> Step {
    if pos < 0 || pos >= lines.len() {
        Step { item: None, position: pos }
    } else {
        match boundary_stamp(lines[pos]) {
            None => Step { item: Some(Err(LineErrorView::Format(lines[pos]))), position: pos + 1 },
            Some(stamp) => match timestamp_of(stamp) {
                None => Step {
                    item: Some(Err(LineErrorView::Timestamp(lines[pos]))),
                    position: pos + 1,
                },
                Some(sent) => message_at(lines, pos, sent),
            },
        }
    }
}

/// The next line that starts a message lies at or after `from`, within
/// the lines, and no line between starts one.
pub proof fn lemma_next_boundary(lines: Seq<Seq<char>>, from: int)
    requires
        0 <= from <= lines.len(),
    ensures
        from <= next_boundary(lines, from) <= lines.len(),
        next_boundary(lines, from) < lines.len() ==> is_boundary(
            lines[next_boundary(lines, from)],
        ),
        forall|i: int| from <= i < next_boundary(lines, from) ==> !is_boundary(#[trigger] lines[i]),
    decreases lines.len() - from,
{
    if from < lines.len() && !is_boundary(lines[from]) {
        lemma_next_boundary(lines, from + 1);
    }
}

/// A call that finds a line takes at least that line, and never more than
/// there are.
pub proof fn lemma_step_advances(lines: Seq<Seq<char>>, pos: int)
    requires
        0 <= pos < lines.len(),
    ensures
        step(lines, pos).item is Some,
        pos < step(lines, pos).position <= lines.len(),
{
    lemma_next_boundary(lines, pos + 1);
}

/// All that the calls hand out, from the line at `pos` to the last line.
pub open spec fn items_from(lines: Seq<Seq<char>>, pos: int) -> Seq<Result<MessageView, LineErrorView>>
    decreases lines.len() - pos,
{
    if pos < 0 || pos >= lines.len() {
        Seq::empty()
    } else {
        proof {
            lemma_step_advances(lines, pos);
        }
        seq![step(lines, pos).item->0] + items_from(lines, step(lines, pos).position)
    }
}

/// Whether a body of this kind takes the lines that follow.
pub fn takes_following_lines(start: &BodyStart) -> (r: bool)
    ensures
        r == accumulates(start@),
{
    match start {
        BodyStart::Poll => true,
        BodyStart::Event(_) => true,
        BodyStart::Text(_, _) => true,
        _ => false,
    }
}

/// Builds the body that begins with `start`, in a message sent at `sent`,
/// from the lines that follow its first line.
pub fn assemble(start: BodyStart, sent: Timestamp, following: Vec<String>) -> (r: MessageBody)
    ensures
        r@ == body_of(start@, sent, texts(following@)),
{
    match start {
        BodyStart::Omitted => MessageBody::Omitted,
        BodyStart::Poll => {
            assert(texts(following@).subrange(0, following@.len() as int) =~= texts(following@));
            parse_poll(&following, 0, following.len())
        },
        BodyStart::Event(title) => {
            assert(texts(following@).subrange(0, following@.len() as int) =~= texts(following@));
            parse_event(title, sent, &following, 0, following.len())
        },
        BodyStart::Location(lat, long) => MessageBody::Location { lat, long },
        BodyStart::Attachment(name) => MessageBody::Attachment(name),
        BodyStart::Text(first, edited) => {
            let mut text = following;
            text.insert(0, first);
            assert(texts(text@) =~= seq![first@] + texts(following@));
            MessageBody::Text { text, edited }
        },
    }
}

/// Reads an export, message by message.
pub struct MessageParser {
    source: LineSource,
    detector: BoundaryDetector,
}

impl MessageParser {
    /// All the lines of the export.
    pub closed spec fn lines(self) -> Seq<Seq<char>> {
        self.source.lines()
    }

    /// The index of the line that comes next.
    pub closed spec fn position(self) -> int {
        self.source.position()
    }

    /// All that is still to come.
    pub open spec fn upcoming(self) -> Seq<Result<MessageView, LineErrorView>> {
        items_from(self.lines(), self.position())
    }

    /// A parser that reads from `source` and tells the lines apart with
    /// `detector`.
    pub fn new(source: LineSource, detector: BoundaryDetector) -> (r: MessageParser)
        ensures
            r.lines() == source.lines(),
            r.position() == source.position(),
    {
        MessageParser { source, detector }
    }

    /// A parser over the lines of `s`, before the first of them. There is
    /// one if and only if the engine takes the boundary pattern.
    pub fn new_from_string(s: &str) -> (r: Result<MessageParser, PatternRejected>)
        ensures
            r is Ok <==> regex_compiles(BOUNDARY_PATTERN@),
            r matches Ok(p) ==> p.lines() == lines_of(s@) && p.position() == 0,
    {
        MessageParser::with_detector(s, BoundaryDetector::new())
    }

    /// The detector that tells the lines apart.
    pub closed spec fn detector(self) -> BoundaryDetector {
        self.detector
    }

    /// A parser over the lines of `s` with the detector that `detector`
    /// holds; where it holds none, the reason why there is none.
    pub fn with_detector(s: &str, detector: Result<BoundaryDetector, PatternRejected>) -> (r: Result<
        MessageParser,
        PatternRejected,
    >)
        ensures
            match detector {
                Ok(d) => r matches Ok(p) && p.lines() == lines_of(s@) && p.position() == 0
                    && p.detector() == d,
                Err(e) => r == Err::<MessageParser, PatternRejected>(e),
            },
    {
        match detector {
            Ok(detector) => Ok(MessageParser { source: LineSource::from_text(s), detector }),
            Err(e) => Err(e),
        }
    }

    /// Takes the lines up to the next line that starts a message.
    fn accumulate(&mut self) -> (r: Vec<String>)
        ensures
            final(self).lines() == old(self).lines(),
            0 <= old(self).position() <= old(self).lines().len(),
            final(self).position() == next_boundary(old(self).lines(), old(self).position()),
            texts(r@) == old(self).lines().subrange(old(self).position(), final(self).position()),
    {
        let ghost lines = self.lines();
        let ghost first = self.position();
        let mut following: Vec<String> = Vec::new();
        proof {
            use_type_invariant(&self.source);
            self.source.lemma_in_range();
        }
        assert(texts(following@) =~= lines.subrange(first, first));
        loop
            invariant
                self.lines() == lines,
                0 <= first <= self.position() <= lines.len(),
                next_boundary(lines, first) == next_boundary(lines, self.position()),
                texts(following@) == lines.subrange(first, self.position()),
            ensures
                self.lines() == lines,
                0 <= first <= self.position() <= lines.len(),
                self.position() == next_boundary(lines, first),
                texts(following@) == lines.subrange(first, self.position()),
            decreases lines.len() - self.position(),
        {
            let more = match self.source.peek() {
                Some(line) => !self.detector.is_boundary(line.as_str()),
                None => false,
            };
            if !more {
                break;
            }
            let ghost before = self.position();
            match self.source.pull() {
                Some(line) => {
                    proof {
                        assert(line@ == lines[before]);
                        assert(texts(following@.push(line)) =~= texts(following@).push(line@));
                        assert(lines.subrange(first, before).push(lines[before])
                            =~= lines.subrange(first, before + 1));
                    }
                    following.push(line);
                },
                None => {},
            }
        }
        following
    }

    /// The next message, or the next line that gave none; `None` when all
    /// lines are taken.
    pub fn next(&mut self) -> (r: Option<Result<Message, LineError>>)
        ensures
            final(self).lines() == old(self).lines(),
            item_view(r) == step(old(self).lines(), old(self).position()).item,
            final(self).position() == step(old(self).lines(), old(self).position()).position,
            0 <= old(self).position() <= final(self).position() <= old(self).lines().len(),
    {
        let ghost lines = self.lines();
        let ghost pos = self.position();
        let line = match self.source.pull() {
            Some(line) => line,
            None => {
                return None;
            },
        };
        proof {
            lemma_step_advances(lines, pos);
        }
        let boundary = match self.detector.detect(line.as_str()) {
            Some(boundary) => boundary,
            None => {
                return Some(Err(LineError::Format(line)));
            },
        };
        let sent = match read_timestamp(boundary.stamp.as_str()) {
            Some(sent) => sent,
            None => {
                return Some(Err(LineError::Timestamp(line)));
            },
        };
        let (sender, body) = match split_sender(boundary.rest.as_str()) {
            Some(parts) => parts,
            None => {
                return Some(Ok(Message::system_message(sent, boundary.rest)));
            },
        };
        let start = classify_body(body.as_str());
        let following = if takes_following_lines(&start) {
            self.accumulate()
        } else {
            let none: Vec<String> = Vec::new();
            assert(texts(none@) =~= lines.subrange(pos + 1, pos + 1));
            none
        };
        Some(Ok(Message::user_message(sent, sender, assemble(start, sent, following))))
    }

    /// All the messages and errors that are still to come, in their order.
    pub fn collect(&mut self) -> (r: Vec<Result<Message, LineError>>)
        ensures
            final(self).lines() == old(self).lines(),
            final(self).position() == old(self).lines().len(),
            items_view(r@) == old(self).upcoming(),
    {
        let ghost lines = self.lines();
        let ghost first = self.position();
        let mut out: Vec<Result<Message, LineError>> = Vec::new();
        proof {
            use_type_invariant(&self.source);
            self.source.lemma_in_range();
        }
        assert(items_view(out@) + items_from(lines, first) =~= items_from(lines, first));
        loop
            invariant
                self.lines() == lines,
                0 <= self.position() <= lines.len(),
                items_from(lines, first) == items_view(out@) + items_from(lines, self.position()),
            ensures
                self.lines() == lines,
                self.position() == lines.len(),
                items_from(lines, first) == items_view(out@),
            decreases lines.len() - self.position(),
        {
            let ghost pos = self.position();
            let ghost sofar = items_view(out@);
            match self.next() {
                Some(item) => {
                    proof {
                        lemma_step_advances(lines, pos);
                        assert(items_view(out@.push(item)) =~= sofar.push(result_view(item)));
                        assert(sofar.push(result_view(item)) + items_from(lines, self.position())
                            =~= sofar + (seq![result_view(item)] + items_from(
                            lines,
                            self.position(),
                        )));
                    }
                    out.push(item);
                },
                None => {
                    assert(sofar + items_from(lines, pos) =~= sofar);
                    break;
                },
            }
        }
        out
    }
}

} // verus!
