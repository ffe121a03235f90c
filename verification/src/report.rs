//! From the messages of a chat to the rows of a report.
//!
//! The messages before the first one that is not earlier than a given day
//! are left out. Of the others, each text of which some line may report a
//! game gives one row, or one reason why not, for each of its lines. Each
//! outcome comes with the places of its message and of its line, so that
//! whoever reads the report can say which line gave it.

use crate::entity::{texts, Message, MessageBody, MessageBodyView, MessageType, MessageTypeView, MessageView};
use crate::pattern::regex_is_match;
use crate::roster::{player_views, Player, PlayerView};
use crate::scores::{row_of, row_view, RowError, ScoreReader, GAME_PATTERN};
use crate::timestamp::{earlier, Timestamp};
use vstd::prelude::*;

verus! {

/// What one line gave: its row, or the reason why it gave none.
#[derive(Debug, PartialEq, Eq)]
pub struct ReportLine {
    /// The place of the message among the messages.
    pub message: usize,
    /// The place of the line among the lines of the message.
    pub line: usize,
    pub outcome: Result<String, RowError>,
}

/// What a `ReportLine` holds.
pub struct ReportLineView {
    pub message: int,
    pub line: int,
    pub outcome: Result<Seq<char>, RowError>,
}

impl View for ReportLine {
    type V = ReportLineView;

    open spec fn view(&self) -> ReportLineView {
        ReportLineView {
            message: self.message as int,
            line: self.line as int,
            outcome: row_view(self.outcome),
        }
    }
}

/// Some line of `lines` may report a game.
pub open spec fn any_mentions_game(lines: Seq<Seq<char>>) -> bool {
    exists|i: int| 0 <= i < lines.len() && regex_is_match(GAME_PATTERN@, #[trigger] lines[i])
}

/// The lines of a message that are read for a game: all the lines of a
/// user's text of which some line may report one.
pub open spec fn reported_lines(m: MessageView) -> Seq<Seq<char>> {
    match m.message_type {
        MessageTypeView::User { sender, body: MessageBodyView::Text { text, edited } } => if any_mentions_game(
            text,
        ) {
            text
        } else {
            Seq::empty()
        },
        _ => Seq::empty(),
    }
}

/// The sender of a user's message; of a notice, nobody.
pub open spec fn sender_of(m: MessageView) -> Seq<char> {
    match m.message_type {
        MessageTypeView::User { sender, body } => sender,
        MessageTypeView::System(_) => Seq::empty(),
    }
}

/// What the message at the place `at` gives: for each of its lines that
/// are read, in their order, the row or the reason.
pub open spec fn rows_of_message(club: Seq<PlayerView>, m: MessageView, at: int) -> Seq<ReportLineView> {
    Seq::new(
        reported_lines(m).len(),
        |j: int|
            ReportLineView {
                message: at,
                line: j,
                outcome: row_of(club, m.date_time, sender_of(m), reported_lines(m)[j]),
            },
    )
}

/// What the messages at the places from `from` up to `to` give, in their
/// order.
pub open spec fn rows_between(club: Seq<PlayerView>, messages: Seq<MessageView>, from: int, to: int) -> Seq<
    ReportLineView,
>
    decreases to - from,
{
    if to <= from || to > messages.len() || from < 0 {
        Seq::empty()
    } else {
        rows_between(club, messages, from, to - 1) + rows_of_message(club, messages[to - 1], to - 1)
    }
}

/// The index of the first message at or after `from` that is not earlier
/// than `since`; the number of messages where there is none.
pub open spec fn first_since(messages: Seq<MessageView>, since: Timestamp, from: int) -> int
    decreases messages.len() - from,
{
    if from < 0 || from >= messages.len() {
        messages.len() as int
    } else if !earlier(messages[from].date_time, since) {
        from
    } else {
        first_since(messages, since, from + 1)
    }
}

/// The report on `messages` from `since` on.
pub open spec fn report_of(club: Seq<PlayerView>, messages: Seq<MessageView>, since: Timestamp) -> Seq<
    ReportLineView,
> {
    rows_between(club, messages, first_since(messages, since, 0), messages.len() as int)
}

/// What a sequence of messages holds.
pub open spec fn message_views(messages: Seq<Message>) -> Seq<MessageView> {
    messages.map_values(|m: Message| m@)
}

/// What a sequence of outcomes holds.
pub open spec fn rows_view(rows: Seq<ReportLine>) -> Seq<ReportLineView> {
    rows.map_values(|r: ReportLine| r@)
}

impl ScoreReader {
    /// Whether some line of `lines` may report a game.
    pub fn any_mentions_game(&self, lines: &Vec<String>) -> (r: bool)
        ensures
            r == any_mentions_game(texts(lines@)),
    {
        let mut i: usize = 0;
        while i < lines.len()
            invariant
                i <= lines.len(),
                forall|j: int| 0 <= j < i ==> !regex_is_match(GAME_PATTERN@, #[trigger] texts(lines@)[j]),
            decreases lines.len() - i,
        {
            if self.mentions_game(lines[i].as_str()) {
                assert(regex_is_match(GAME_PATTERN@, texts(lines@)[i as int]));
                return true;
            }
            i += 1;
        }
        false
    }

    /// Adds to `out` what the message at the place `at` gives.
    pub fn add_rows(&self, out: &mut Vec<ReportLine>, players: &Vec<Player>, message: &Message, at: usize)
        ensures
            rows_view(final(out)@) == rows_view(old(out)@) + rows_of_message(
                player_views(players@),
                message@,
                at as int,
            ),
    {
        let ghost before = rows_view(out@);
        let ghost club = player_views(players@);
        let ghost wanted = rows_of_message(club, message@, at as int);
        match &message.message_type {
            MessageType::User { sender, body } => match body {
                MessageBody::Text { text, edited } => {
                    if self.any_mentions_game(text) {
                        let mut j: usize = 0;
                        assert(before + wanted.subrange(0, 0) =~= before);
                        while j < text.len()
                            invariant
                                j <= text.len(),
                                club == player_views(players@),
                                wanted == rows_of_message(club, message@, at as int),
                                wanted.len() == text.len(),
                                reported_lines(message@) == texts(text@),
                                sender_of(message@) == sender@,
                                rows_view(out@) == before + wanted.subrange(0, j as int),
                            decreases text.len() - j,
                        {
                            let outcome = self.process_message(players, &message.date_time, sender, &text[j]);
                            let row = ReportLine { message: at, line: j, outcome };
                            proof {
                                assert(texts(text@)[j as int] == text@[j as int]@);
                                assert(row@ == wanted[j as int]);
                                assert(rows_view(out@.push(row)) =~= rows_view(out@).push(row@));
                                assert((before + wanted.subrange(0, j as int)).push(wanted[j as int])
                                    =~= before + wanted.subrange(0, j + 1));
                            }
                            out.push(row);
                            j += 1;
                        }
                        assert(wanted.subrange(0, text@.len() as int) =~= wanted);
                    } else {
                        assert(before + wanted =~= before);
                    }
                },
                _ => {
                    assert(before + wanted =~= before);
                },
            },
            MessageType::System(_) => {
                assert(before + wanted =~= before);
            },
        }
    }

    /// The report on `messages` from `since` on: for each line that is
    /// read for a game, with its place, its row or the reason why it gives
    /// none.
    pub fn report(&self, players: &Vec<Player>, messages: &Vec<Message>, since: &Timestamp) -> (r: Vec<
        ReportLine,
    >)
        ensures
            rows_view(r@) == report_of(player_views(players@), message_views(messages@), *since),
    {
        let ghost all = message_views(messages@);
        let ghost club = player_views(players@);
        let mut first: usize = 0;
        while first < messages.len() && messages[first].date_time.is_before(since)
            invariant
                first <= messages.len(),
                all == message_views(messages@),
                first_since(all, *since, 0) == first_since(all, *since, first as int),
            decreases messages.len() - first,
        {
            assert(all[first as int] == messages@[first as int]@);
            first += 1;
        }
        proof {
            if first < messages.len() {
                assert(all[first as int] == messages@[first as int]@);
            }
        }
        let mut out: Vec<ReportLine> = Vec::new();
        let mut i: usize = first;
        assert(rows_view(out@) =~= rows_between(club, all, first as int, first as int));
        while i < messages.len()
            invariant
                first <= i <= messages.len(),
                all == message_views(messages@),
                club == player_views(players@),
                rows_view(out@) == rows_between(club, all, first as int, i as int),
            decreases messages.len() - i,
        {
            assert(all[i as int] == messages@[i as int]@);
            self.add_rows(&mut out, players, &messages[i], i);
            i += 1;
        }
        out
    }
}

} // verus!
