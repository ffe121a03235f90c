//! Rows of results, read from the texts of messages.
//!
//! A message that reports a game names four players and gives two scores.
//! The text is tidied, the scores are read and taken out, the players are
//! found one after the other, and the row is written.

use crate::boundary::PatternRejected;
use crate::pattern::{
    capture, compile, matches_somewhere, pattern_text, plainly_built, regex_capture,
    regex_compiles, regex_is_match,
    regex_replace_all, replace_every,
};
use crate::roster::{borrowed_views, first_claim, get_player, player_views, Player, PlayerView};
use crate::text::{
    append_chars, decimal_of, digits_of, from_chars, lowercase_of, parse_decimal, push_decimal,
    replace_all, replaced, to_chars, trim_from, trimmed,
};
use crate::timestamp::{date_text, Timestamp};
use regex::Regex;
use vstd::prelude::*;
use vstd::string::StringExecFns;

verus! {

/// The signs that stand for a space in a report.
pub const CLEAN_PATTERN: &'static str = r"[_\-.,&/=]";

/// A run of white space.
pub const SPACE_PATTERN: &'static str = r"\s+";

/// Two numbers of one or two digits, each after white space: the scores.
pub const SCORES_PATTERN: &'static str = r"\s+(?<first>\d{1,2}).*\s+(?<second>\d{1,2})";

/// Two numbers of one or two digits with something between them that is
/// neither a colon, nor the sign of a name, nor a digit.
pub const GAME_PATTERN: &'static str = r"(\d{1,2})[^:@0-9]+(\d{1,2})";

/// The group that holds the first score.
pub const FIRST_GROUP: &'static str = "first";

/// The group that holds the second score.
pub const SECOND_GROUP: &'static str = "second";

pub const SPACE: &'static str = " ";

pub const EMPTY: &'static str = "";

/// Stands between the two sides of a game.
pub const VERSUS: &'static str = "vs";

/// `vs`, one key to the left.
pub const VERSUS_MISTYPED: &'static str = "va";

/// The word for the sender, written apart.
pub const ME_APART: &'static str = "@ me";

/// The word for the sender.
pub const ME: &'static str = "@me";

/// The sign of a name that names nobody.
pub const LONE_AT: &'static str = " @ ";

/// Stands between the two players of a side, in Spanish.
pub const AND: &'static str = " y ";

/// The mark that the chat puts before a name.
pub const ISOLATE: &'static str = "\u{2068}";

/// The edit marker, in lower case.
pub const EDITED: &'static str = "<this message was edited>";

/// Opens a row: three empty fields, the kind of the match, one empty
/// field.
pub const ROW_OPENING: &'static str = ",,,D,,";

pub const COMMA: &'static str = ",";

/// Why a message gave no row.
#[derive(Debug, Clone, Copy, PartialEq, Eq)]
pub enum RowError {
    /// The two scores are the same, or could not be read.
    BadScores,
    /// The player with this number, from 1 to 4, was not found.
    BadPlayer(u8),
    /// The message was sent on no day of the calendar.
    BadDate,
}

/// The text of a message, tidied for reading: in lower case; without the
/// words between the sides and the players, the mark before names and the
/// edit marker; with one space for each sign that stands for one and for
/// each run of white space; with one space in front and none at the end.
pub open spec fn tidied(message: Seq<char>) -> Seq<char> {
    let m = lowercase_of(message);
    let m = replaced(m, VERSUS@, SPACE@);
    let m = replaced(m, VERSUS_MISTYPED@, SPACE@);
    let m = replaced(m, ME_APART@, ME@);
    let m = replaced(m, LONE_AT@, SPACE@);
    let m = replaced(m, AND@, SPACE@);
    let m = replaced(m, ISOLATE@, EMPTY@);
    let m = replaced(m, EDITED@, EMPTY@);
    let m = regex_replace_all(CLEAN_PATTERN@, m, SPACE@);
    let m = regex_replace_all(SPACE_PATTERN@, m, SPACE@);
    SPACE@ + trimmed(m)
}

/// The score that the digits give, where they are digits and give at most
/// 255.
pub open spec fn score_of(digits: Option<Seq<char>>) -> Option<u8> {
    match digits {
        Some(d) => match decimal_of(d) {
            Some(n) => if n <= 255 {
                Some(n as u8)
            } else {
                None
            },
            None => None,
        },
        None => None,
    }
}

/// The two scores that the two groups give; two zeros where one of them
/// gives none.
pub open spec fn scores_of(first: Option<Seq<char>>, second: Option<Seq<char>>) -> (u8, u8) {
    match (score_of(first), score_of(second)) {
        (Some(a), Some(b)) => (a, b),
        _ => (0u8, 0u8),
    }
}

/// The two scores in a tidied text.
pub open spec fn scores_in(message: Seq<char>) -> (u8, u8) {
    scores_of(
        regex_capture(SCORES_PATTERN@, message, FIRST_GROUP@),
        regex_capture(SCORES_PATTERN@, message, SECOND_GROUP@),
    )
}

/// The text without the score, wherever it stands after a space, and
/// without the white space at its two ends.
pub open spec fn without_score(message: Seq<char>, score: u8) -> Seq<char> {
    trimmed(replaced(message, SPACE@ + digits_of(score as nat), SPACE@))
}

/// The text without the two scores `a` and `b`.
pub open spec fn without_scores(message: Seq<char>, a: u8, b: u8) -> Seq<char> {
    without_score(without_score(message, a), b)
}

/// The players found so far, by their places in the club, what is left of
/// the message, and the number of the player who was not found.
pub struct Picking {
    pub taken: Seq<int>,
    pub message: Seq<char>,
    pub failed: Option<nat>,
}

/// The players at the places `taken`.
pub open spec fn chosen(club: Seq<PlayerView>, taken: Seq<int>) -> Seq<PlayerView> {
    taken.map_values(|i: int| club[i])
}

/// The first `k` players that the message names, one after the other,
/// none of them twice.
pub open spec fn picked(club: Seq<PlayerView>, sender: Seq<char>, message: Seq<char>, k: nat) -> Picking
    decreases k,
{
    if k == 0 {
        Picking { taken: Seq::empty(), message, failed: None }
    } else {
        let before = picked(club, sender, message, (k - 1) as nat);
        if before.failed is Some {
            before
        } else {
            match first_claim(club, chosen(club, before.taken), sender, before.message, 0) {
                Some((i, rest)) => Picking { taken: before.taken.push(i), message: rest, failed: None },
                None => Picking { taken: before.taken, message: before.message, failed: Some(k) },
            }
        }
    }
}

/// The row for a game on the day `date` between `four` players, the first
/// two against the last two, with the scores `a` and `b`.
pub open spec fn row_text(date: Seq<char>, four: Seq<PlayerView>, a: u8, b: u8) -> Seq<char> {
    ROW_OPENING@ + date + COMMA@ + four[0].dupr_name + COMMA@ + four[0].dupr_id + COMMA@ + COMMA@
        + four[1].dupr_name + COMMA@ + four[1].dupr_id + COMMA@ + COMMA@ + four[2].dupr_name
        + COMMA@ + four[2].dupr_id + COMMA@ + COMMA@ + four[3].dupr_name + COMMA@
        + four[3].dupr_id + COMMA@ + COMMA@ + COMMA@ + digits_of(a as nat) + COMMA@ + digits_of(
        b as nat,
    )
}

/// The row that a message gives, or why it gives none.
pub open spec fn row_of(club: Seq<PlayerView>, sent: Timestamp, sender: Seq<char>, message: Seq<char>) -> Result<
    Seq<char>,
    RowError,
> {
    let m = tidied(message);
    let (a, b) = scores_in(m);
    if a == b {
        Err(RowError::BadScores)
    } else {
        let p = picked(club, sender, without_scores(m, a, b), 4);
        match p.failed {
            Some(k) => Err(RowError::BadPlayer(k as u8)),
            None => match date_text(sent) {
                Some(d) => Ok(row_text(d, chosen(club, p.taken), a, b)),
                None => Err(RowError::BadDate),
            },
        }
    }
}

/// What a row or an error holds.
pub open spec fn row_view(r: Result<String, RowError>) -> Result<Seq<char>, RowError> {
    match r {
        Ok(s) => Ok(s@),
        Err(e) => Err(e),
    }
}

/// What a text that may be missing holds.
pub open spec fn text_view(t: Option<String>) -> Option<Seq<char>> {
    match t {
        Some(s) => Some(s@),
        None => None,
    }
}

/// The first claim is made by a player of the club.
pub proof fn lemma_first_claim_in_club(
    club: Seq<PlayerView>,
    taken: Seq<PlayerView>,
    sender: Seq<char>,
    message: Seq<char>,
    from: int,
)
    requires
        0 <= from,
    ensures
        first_claim(club, taken, sender, message, from) matches Some((i, _)) ==> from <= i
            < club.len(),
    decreases club.len() - from,
{
    if from < club.len() {
        lemma_first_claim_in_club(club, taken, sender, message, from + 1);
    }
}

/// When a player is not found, no later player is looked for.
pub proof fn lemma_failure_stays(club: Seq<PlayerView>, sender: Seq<char>, message: Seq<char>, j: nat, n: nat)
    requires
        j <= n,
        picked(club, sender, message, j).failed is Some,
    ensures
        picked(club, sender, message, n) == picked(club, sender, message, j),
    decreases n,
{
    if j < n {
        lemma_failure_stays(club, sender, message, j, (n - 1) as nat);
    }
}

/// `v` with the text `to` in place of each text `pattern`.
fn swap(v: &Vec<char>, pattern: &str, to: &str) -> (r: Vec<char>)
    ensures
        r@ == replaced(v@, pattern@, to@),
{
    let p = to_chars(pattern);
    let t = to_chars(to);
    replace_all(v, &p, &t)
}

/// Reads a score from its digits.
pub fn read_score(digits: Option<String>) -> (r: Option<u8>)
    ensures
        r == score_of(text_view(digits)),
{
    match digits {
        Some(d) => {
            let v = to_chars(d.as_str());
            assert(v@.subrange(0, v@.len() as int) =~= v@);
            match parse_decimal(&v, 0, v.len()) {
                Some(n) => if n <= 255 {
                    Some(n as u8)
                } else {
                    None
                },
                None => None,
            }
        },
        None => None,
    }
}

/// The two scores that two texts of digits give.
pub fn scores_from(first: Option<String>, second: Option<String>) -> (r: (u8, u8))
    ensures
        r == scores_of(text_view(first), text_view(second)),
{
    let a = read_score(first);
    let b = read_score(second);
    match (a, b) {
        (Some(a), Some(b)) => (a, b),
        _ => (0, 0),
    }
}

/// Takes a score out of a text.
pub fn take_out_score(message: &str, score: u8) -> (r: String)
    ensures
        r@ == without_score(message@, score),
{
    let v = to_chars(message);
    let mut p = to_chars(SPACE);
    push_decimal(&mut p, score as u32);
    let space = to_chars(SPACE);
    let w = replace_all(&v, &p, &space);
    assert(w@.subrange(0, w@.len() as int) =~= w@);
    trim_from(&w, 0)
}

/// Finds the four players that a message names, one after the other, and
/// takes their names out of the message.
pub fn pick_players<'a>(players: &'a Vec<Player>, sender: &String, message: &mut String) -> (r: Result<
    Vec<&'a Player>,
    RowError,
>)
    ensures
        final(message)@ == picked(player_views(players@), sender@, old(message)@, 4).message,
        match picked(player_views(players@), sender@, old(message)@, 4).failed {
            Some(k) => r == Err::<Vec<&Player>, RowError>(RowError::BadPlayer(k as u8)),
            None => r matches Ok(four) && four@.len() == 4 && borrowed_views(four@) == chosen(
                player_views(players@),
                picked(player_views(players@), sender@, old(message)@, 4).taken,
            ),
        },
{
    let ghost club = player_views(players@);
    let ghost start = message@;
    let ghost mut taken: Seq<int> = Seq::empty();
    let mut four: Vec<&Player> = Vec::new();
    let mut k: u8 = 0;
    assert(borrowed_views(four@) =~= chosen(club, taken));
    while k < 4
        invariant
            k <= 4,
            club == player_views(players@),
            start == old(message)@,
            four@.len() == k,
            picked(club, sender@, start, k as nat) == (Picking {
                taken,
                message: message@,
                failed: None,
            }),
            borrowed_views(four@) == chosen(club, taken),
        decreases 4 - k,
    {
        let ghost claimed = first_claim(club, borrowed_views(four@), sender@, message@, 0);
        proof {
            lemma_first_claim_in_club(club, borrowed_views(four@), sender@, message@, 0);
        }
        match get_player(players, &four, sender, message) {
            Some(p) => {
                proof {
                    let i = match claimed {
                        Some((i, _)) => i,
                        None => 0,
                    };
                    assert(0 <= i < club.len());
                    assert(p@ == club[i]);
                    assert(borrowed_views(four@.push(p)) =~= borrowed_views(four@).push(p@));
                    assert(chosen(club, taken.push(i)) =~= chosen(club, taken).push(club[i]));
                    taken = taken.push(i);
                }
                four.push(p);
            },
            None => {
                proof {
                    assert(picked(club, sender@, start, (k + 1) as nat).failed is Some);
                    lemma_failure_stays(club, sender@, start, (k + 1) as nat, 4);
                }
                return Err(RowError::BadPlayer(k + 1));
            },
        }
        k += 1;
    }
    Ok(four)
}

/// Writes the row for a game on the day `date` between `four` players with
/// the scores `a` and `b`.
pub fn write_row(date: &str, four: &Vec<&Player>, a: u8, b: u8) -> (r: String)
    requires
        four@.len() == 4,
    ensures
        r@ == row_text(date@, borrowed_views(four@), a, b),
{
    let comma = to_chars(COMMA);
    let mut out = to_chars(ROW_OPENING);
    append_chars(&mut out, &to_chars(date));
    let mut k: usize = 0;
    while k < 4
        invariant
            k <= 4,
            four@.len() == 4,
            comma@ == COMMA@,
            k == 0 ==> out@ == ROW_OPENING@ + date@,
            k == 1 ==> out@ == ROW_OPENING@ + date@ + COMMA@ + four@[0].dupr_name@ + COMMA@
                + four@[0].dupr_id@ + COMMA@,
            k == 2 ==> out@ == ROW_OPENING@ + date@ + COMMA@ + four@[0].dupr_name@ + COMMA@
                + four@[0].dupr_id@ + COMMA@ + COMMA@ + four@[1].dupr_name@ + COMMA@
                + four@[1].dupr_id@ + COMMA@,
            k == 3 ==> out@ == ROW_OPENING@ + date@ + COMMA@ + four@[0].dupr_name@ + COMMA@
                + four@[0].dupr_id@ + COMMA@ + COMMA@ + four@[1].dupr_name@ + COMMA@
                + four@[1].dupr_id@ + COMMA@ + COMMA@ + four@[2].dupr_name@ + COMMA@
                + four@[2].dupr_id@ + COMMA@,
            k == 4 ==> out@ == ROW_OPENING@ + date@ + COMMA@ + four@[0].dupr_name@ + COMMA@
                + four@[0].dupr_id@ + COMMA@ + COMMA@ + four@[1].dupr_name@ + COMMA@
                + four@[1].dupr_id@ + COMMA@ + COMMA@ + four@[2].dupr_name@ + COMMA@
                + four@[2].dupr_id@ + COMMA@ + COMMA@ + four@[3].dupr_name@ + COMMA@
                + four@[3].dupr_id@ + COMMA@,
        decreases 4 - k,
    {
        append_chars(&mut out, &comma);
        append_chars(&mut out, &to_chars(four[k].dupr_name.as_str()));
        append_chars(&mut out, &comma);
        append_chars(&mut out, &to_chars(four[k].dupr_id.as_str()));
        append_chars(&mut out, &comma);
        k += 1;
    }
    append_chars(&mut out, &comma);
    append_chars(&mut out, &comma);
    push_decimal(&mut out, a as u32);
    append_chars(&mut out, &comma);
    push_decimal(&mut out, b as u32);
    assert(out@.subrange(0, out@.len() as int) =~= out@);
    from_chars(&out, 0, out.len())
}

/// Reads reports of games.
pub struct ScoreReader {
    clean: Regex,
    spaces: Regex,
    scores: Regex,
    game: Regex,
}

impl ScoreReader {
    #[verifier::type_invariant]
    spec fn holds_its_patterns(self) -> bool {
        &&& pattern_text(self.clean) == CLEAN_PATTERN@
        &&& pattern_text(self.spaces) == SPACE_PATTERN@
        &&& pattern_text(self.scores) == SCORES_PATTERN@
        &&& pattern_text(self.game) == GAME_PATTERN@
        &&& plainly_built(self.clean)
        &&& plainly_built(self.spaces)
        &&& plainly_built(self.scores)
        &&& plainly_built(self.game)
    }

    /// Compiles the patterns, once for all the messages to come. There is a
    /// reader if and only if the engine takes all four of them.
    pub fn new() -> (r: Result<ScoreReader, PatternRejected>)
        ensures
            r is Ok <==> report_patterns_compile(),
            r matches Ok(reader) ==> reader.patterns() == report_patterns(),
    {
        ScoreReader::from_compiled(
            compile(CLEAN_PATTERN),
            compile(SPACE_PATTERN),
            compile(SCORES_PATTERN),
            compile(GAME_PATTERN),
        )
    }

    /// The patterns that the reader's expressions were compiled from.
    pub closed spec fn patterns(self) -> ReportPatterns {
        ReportPatterns {
            clean: pattern_text(self.clean),
            spaces: pattern_text(self.spaces),
            scores: pattern_text(self.scores),
            game: pattern_text(self.game),
        }
    }

    /// The compiled expressions that the reader holds: for the signs that
    /// stand for a space, for white space, for the scores and for a game.
    pub closed spec fn compiled(self) -> (Regex, Regex, Regex, Regex) {
        (self.clean, self.spaces, self.scores, self.game)
    }

    /// A reader from what compiling the four patterns of a report gave: the
    /// reader that holds the four compiled expressions, where all four are
    /// there.
    pub(crate) fn from_compiled(
        clean: Result<Regex, regex::Error>,
        spaces: Result<Regex, regex::Error>,
        scores: Result<Regex, regex::Error>,
        game: Result<Regex, regex::Error>,
    ) -> (r: Result<ScoreReader, PatternRejected>)
        requires
            clean matches Ok(re) ==> pattern_text(re) == CLEAN_PATTERN@ && plainly_built(re),
            spaces matches Ok(re) ==> pattern_text(re) == SPACE_PATTERN@ && plainly_built(re),
            scores matches Ok(re) ==> pattern_text(re) == SCORES_PATTERN@ && plainly_built(re),
            game matches Ok(re) ==> pattern_text(re) == GAME_PATTERN@ && plainly_built(re),
        ensures
            r is Ok <==> clean is Ok && spaces is Ok && scores is Ok && game is Ok,
            r matches Ok(reader) ==> clean == Ok::<Regex, regex::Error>(reader.compiled().0)
                && spaces == Ok::<Regex, regex::Error>(reader.compiled().1) && scores == Ok::<
                Regex,
                regex::Error,
            >(reader.compiled().2) && game == Ok::<Regex, regex::Error>(reader.compiled().3),
    {
        match (clean, spaces, scores, game) {
            (Ok(clean), Ok(spaces), Ok(scores), Ok(game)) => Ok(
                ScoreReader { clean, spaces, scores, game },
            ),
            _ => Err(PatternRejected),
        }
    }

    /// Whether a line of text may report a game.
    pub fn mentions_game(&self, text: &str) -> (r: bool)
        ensures
            r == regex_is_match(GAME_PATTERN@, text@),
    {
        proof {
            use_type_invariant(self);
        }
        matches_somewhere(&self.game, text)
    }

    /// Tidies the text of a message for reading.
    pub fn tidy(&self, message: &str) -> (r: String)
        ensures
            r@ == tidied(message@),
    {
        proof {
            use_type_invariant(self);
        }
        let lower = message.to_lowercase();
        let v = to_chars(lower.as_str());
        let v = swap(&v, VERSUS, SPACE);
        let v = swap(&v, VERSUS_MISTYPED, SPACE);
        let v = swap(&v, ME_APART, ME);
        let v = swap(&v, LONE_AT, SPACE);
        let v = swap(&v, AND, SPACE);
        let v = swap(&v, ISOLATE, EMPTY);
        let v = swap(&v, EDITED, EMPTY);
        assert(v@.subrange(0, v@.len() as int) =~= v@);
        let s = from_chars(&v, 0, v.len());
        let s = replace_every(&self.clean, s.as_str(), SPACE);
        let s = replace_every(&self.spaces, s.as_str(), SPACE);
        let w = to_chars(s.as_str());
        assert(w@.subrange(0, w@.len() as int) =~= w@);
        let t = trim_from(&w, 0);
        let mut r = String::from_str(SPACE);
        r.append(t.as_str());
        r
    }

    /// Reads the two scores in a tidied text and takes them out of it.
    pub fn extract_scores(&self, message: &mut String) -> (r: (u8, u8))
        ensures
            r == scores_in(old(message)@),
            final(message)@ == without_scores(old(message)@, r.0, r.1),
    {
        proof {
            use_type_invariant(self);
        }
        let first = capture(&self.scores, message.as_str(), FIRST_GROUP);
        let second = capture(&self.scores, message.as_str(), SECOND_GROUP);
        let scores = scores_from(first, second);
        let once = take_out_score(message.as_str(), scores.0);
        *message = take_out_score(once.as_str(), scores.1);
        scores
    }

    /// The row that a message gives, or why it gives none.
    pub fn process_message(&self, players: &Vec<Player>, date_time: &Timestamp, sender: &String, message: &String) -> (r:
        Result<String, RowError>)
        ensures
            row_view(r) == row_of(player_views(players@), *date_time, sender@, message@),
    {
        let mut text = self.tidy(message.as_str());
        let (a, b) = self.extract_scores(&mut text);
        if a == b {
            return Err(RowError::BadScores);
        }
        let four = match pick_players(players, sender, &mut text) {
            Ok(four) => four,
            Err(e) => {
                return Err(e);
            },
        };
        match date_time.date_text() {
            Some(date) => Ok(write_row(date.as_str(), &four, a, b)),
            None => Err(RowError::BadDate),
        }
    }
}

/// The four patterns of a reader, by what they are for.
pub struct ReportPatterns {
    pub clean: Seq<char>,
    pub spaces: Seq<char>,
    pub scores: Seq<char>,
    pub game: Seq<char>,
}

/// The patterns that a reader of reports works with.
pub open spec fn report_patterns() -> ReportPatterns {
    ReportPatterns {
        clean: CLEAN_PATTERN@,
        spaces: SPACE_PATTERN@,
        scores: SCORES_PATTERN@,
        game: GAME_PATTERN@,
    }
}

/// The engine takes all four patterns of a report.
pub open spec fn report_patterns_compile() -> bool {
    regex_compiles(CLEAN_PATTERN@) && regex_compiles(SPACE_PATTERN@) && regex_compiles(
        SCORES_PATTERN@,
    ) && regex_compiles(GAME_PATTERN@)
}

} // verus!
