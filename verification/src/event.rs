//! Events: the lines that follow the line with the event's title.
//!
//! The line `Cancelled` marks the event as cancelled. The first line
//! `Start: <date and time>` gives the start, the first line
//! `End: <date and time>` the end, both in the format of the export.
//! Every other line belongs to the description. An event without a start
//! line starts when its message was sent.

use crate::entity::{texts, MessageBody, MessageBodyView};
use crate::poll::{begun_or_empty, begun_view, join_line, push_line, text_or_empty};
use crate::text::{from_chars, has_prefix, same_text, starts_with, to_chars};
use crate::timestamp::{read_timestamp, timestamp_of, Timestamp};
use vstd::prelude::*;

verus! {

/// Begins the line that gives the start of an event.
pub const START_PREFIX: &'static str = "Start: ";

/// Begins the line that gives the end of an event.
pub const END_PREFIX: &'static str = "End: ";

/// The line that marks an event as cancelled.
pub const CANCELLED_LINE: &'static str = "Cancelled";

/// What one line under an event's title says.
#[derive(Debug, Clone, Copy, PartialEq, Eq)]
pub enum EventLine {
    Cancelled,
    Start(Timestamp),
    End(Timestamp),
    Other,
}

/// The date and time that follow `prefix` in `line`.
pub open spec fn time_after(line: Seq<char>, prefix: Seq<char>) -> Option<Timestamp> {
    if starts_with(line, prefix) {
        timestamp_of(line.subrange(prefix.len() as int, line.len() as int))
    } else {
        None
    }
}

/// What `line` says, by itself.
pub open spec fn event_line_of(line: Seq<char>) -> EventLine {
    if line == CANCELLED_LINE@ {
        EventLine::Cancelled
    } else if let Some(t) = time_after(line, START_PREFIX@) {
        EventLine::Start(t)
    } else if let Some(t) = time_after(line, END_PREFIX@) {
        EventLine::End(t)
    } else {
        EventLine::Other
    }
}

/// What is known of an event after some of its lines.
#[derive(Debug, Clone, PartialEq, Eq)]
pub struct EventDraft {
    pub description: Option<String>,
    pub start: Option<Timestamp>,
    pub end: Option<Timestamp>,
    pub cancelled: bool,
}

/// What an `EventDraft` holds.
pub struct EventDraftView {
    pub description: Option<Seq<char>>,
    pub start: Option<Timestamp>,
    pub end: Option<Timestamp>,
    pub cancelled: bool,
}

impl View for EventDraft {
    type V = EventDraftView;

    open spec fn view(&self) -> EventDraftView {
        EventDraftView {
            description: begun_view(self.description),
            start: self.start,
            end: self.end,
            cancelled: self.cancelled,
        }
    }
}

/// Nothing is known yet.
pub open spec fn empty_draft() -> EventDraftView {
    EventDraftView { description: None, start: None, end: None, cancelled: false }
}

/// The draft with `line` added to its description.
pub open spec fn described(draft: EventDraftView, line: Seq<char>) -> EventDraftView {
    EventDraftView {
        description: Some(join_line(draft.description, line)),
        start: draft.start,
        end: draft.end,
        cancelled: draft.cancelled,
    }
}

/// What one more line, which says `said`, adds to a draft. A second start
/// or end is no such line any more: it goes to the description.
pub open spec fn event_step(draft: EventDraftView, said: EventLine, line: Seq<char>) -> EventDraftView {
    match said {
        EventLine::Cancelled => EventDraftView {
            description: draft.description,
            start: draft.start,
            end: draft.end,
            cancelled: true,
        },
        EventLine::Start(t) => if draft.start is None {
            EventDraftView {
                description: draft.description,
                start: Some(t),
                end: draft.end,
                cancelled: draft.cancelled,
            }
        } else {
            described(draft, line)
        },
        EventLine::End(t) => if draft.end is None {
            EventDraftView {
                description: draft.description,
                start: draft.start,
                end: Some(t),
                cancelled: draft.cancelled,
            }
        } else {
            described(draft, line)
        },
        EventLine::Other => described(draft, line),
    }
}

/// What is known of an event after all of `lines`.
pub open spec fn event_draft(lines: Seq<Seq<char>>) -> EventDraftView
    decreases lines.len(),
{
    if lines.len() == 0 {
        empty_draft()
    } else {
        event_step(event_draft(lines.drop_last()), event_line_of(lines.last()), lines.last())
    }
}

/// The event with the title `title`, in a message sent at `sent`, that
/// `lines` describe.
pub open spec fn event_body(title: Seq<char>, sent: Timestamp, lines: Seq<Seq<char>>) -> MessageBodyView {
    let draft = event_draft(lines);
    MessageBodyView::Event {
        title,
        description: text_or_empty(draft.description),
        start_time: match draft.start {
            Some(t) => t,
            None => sent,
        },
        end_time: draft.end,
        cancelled: draft.cancelled,
    }
}

/// Reads what follows `prefix` in `v` as a date and time.
fn read_time_after(v: &Vec<char>, prefix: &str) -> (r: Option<Timestamp>)
    ensures
        r == time_after(v@, prefix@),
{
    let p = to_chars(prefix);
    if has_prefix(v, &p) {
        let tail = from_chars(v, p.len(), v.len());
        read_timestamp(tail.as_str())
    } else {
        None
    }
}

/// Decides what a line under an event's title says.
pub fn read_event_line(line: &str) -> (r: EventLine)
    ensures
        r == event_line_of(line@),
{
    let v = to_chars(line);
    let cancelled = to_chars(CANCELLED_LINE);
    if same_text(&v, &cancelled) {
        return EventLine::Cancelled;
    }
    if let Some(t) = read_time_after(&v, START_PREFIX) {
        return EventLine::Start(t);
    }
    if let Some(t) = read_time_after(&v, END_PREFIX) {
        return EventLine::End(t);
    }
    EventLine::Other
}

impl EventDraft {
    /// The draft of an event of which no line was read.
    pub fn new() -> (r: EventDraft)
        ensures
            r@ == empty_draft(),
    {
        EventDraft { description: None, start: None, end: None, cancelled: false }
    }

    /// Adds a line, which says `said`, to the draft.
    pub fn add_line(self, said: EventLine, line: &str) -> (r: EventDraft)
        ensures
            r@ == event_step(self@, said, line@),
    {
        let EventDraft { description, start, end, cancelled } = self;
        match said {
            EventLine::Cancelled => EventDraft { description, start, end, cancelled: true },
            EventLine::Start(t) => if start.is_none() {
                EventDraft { description, start: Some(t), end, cancelled }
            } else {
                EventDraft { description: Some(push_line(description, line)), start, end, cancelled }
            },
            EventLine::End(t) => if end.is_none() {
                EventDraft { description, start, end: Some(t), cancelled }
            } else {
                EventDraft { description: Some(push_line(description, line)), start, end, cancelled }
            },
            EventLine::Other => EventDraft {
                description: Some(push_line(description, line)),
                start,
                end,
                cancelled,
            },
        }
    }

    /// The event that the draft describes.
    pub fn finish(self, title: String, sent: Timestamp) -> (r: MessageBody)
        ensures
            r@ == (MessageBodyView::Event {
                title: title@,
                description: text_or_empty(self@.description),
                start_time: match self@.start {
                    Some(t) => t,
                    None => sent,
                },
                end_time: self@.end,
                cancelled: self@.cancelled,
            }),
    {
        let EventDraft { description, start, end, cancelled } = self;
        MessageBody::Event {
            title,
            description: begun_or_empty(description),
            start_time: match start {
                Some(t) => t,
                None => sent,
            },
            end_time: end,
            cancelled,
        }
    }
}

/// Reads the lines `lines[from..to]`, which follow the title of an event,
/// as that event.
pub fn parse_event(title: String, sent: Timestamp, lines: &Vec<String>, from: usize, to: usize) -> (r: MessageBody)
    requires
        from <= to <= lines.len(),
    ensures
        r@ == event_body(title@, sent, texts(lines@).subrange(from as int, to as int)),
{
    let ghost all = texts(lines@).subrange(from as int, to as int);
    let mut draft = EventDraft::new();
    let mut i: usize = from;
    assert(all.subrange(0, 0) =~= Seq::<Seq<char>>::empty());
    while i < to
        invariant
            from <= i <= to <= lines.len(),
            all == texts(lines@).subrange(from as int, to as int),
            draft@ == event_draft(all.subrange(0, i - from)),
        decreases to - i,
    {
        let line = lines[i].as_str();
        proof {
            assert(all.subrange(0, i + 1 - from).drop_last() =~= all.subrange(0, i - from));
            assert(all.subrange(0, i + 1 - from).last() == line@);
        }
        let said = read_event_line(line);
        draft = draft.add_line(said, line);
        i += 1;
    }
    assert(all.subrange(0, to - from) =~= all);
    draft.finish(title, sent)
}

} // verus!
