use whatsapp_export_parser::entity::{Message, MessageBody};
use whatsapp_export_parser::report::ReportLine;
use whatsapp_export_parser::roster::Player;
use whatsapp_export_parser::scores::{
    pick_players, read_score, scores_from, take_out_score, write_row, RowError, ScoreReader,
};
use whatsapp_export_parser::timestamp::Timestamp;

fn player(name: &str, id: &str, chat: Option<&str>, aliases: &[&str]) -> Player {
    Player {
        name: name.to_string(),
        dupr_id: id.to_string(),
        dupr_name: format!("{} R", name),
        whatsapp_id: chat.map(|c| c.to_string()),
        aliases: aliases.iter().map(|a| a.to_string()).collect(),
    }
}

fn club() -> Vec<Player> {
    vec![
        player("Julio Guti", "A1", Some("@5215511111111"), &["@julio"]),
        player("Ana", "B2", None, &["@ana"]),
        player("Luis", "C3", Some("@5215533333333"), &["@luis", "@lucho"]),
        player("Bob", "D4", None, &["@bob"]),
    ]
}

fn day(year: i32, month: u32, day: u32) -> Timestamp {
    Timestamp { year, month, day, hour: 20, minute: 30, second: 0 }
}

fn said(sent: Timestamp, sender: &str, lines: &[&str]) -> Message {
    Message::user_message(
        sent,
        sender.to_string(),
        MessageBody::Text { text: lines.iter().map(|l| l.to_string()).collect(), edited: false },
    )
}

#[test]
fn text_is_tidied() {
    let reader = ScoreReader::new().unwrap();
    assert_eq!(reader.tidy("@Me @Ana VS @Luis @Bob 11-7"), " @me @ana @luis @bob 11 7");
    assert_eq!(reader.tidy("  @ me y @ana vs @luis y @bob\t11/9 <This message was edited>"), " @me @ana @luis @bob 11 9");
    assert_eq!(reader.tidy("\u{2068}@ana_b, @ @c.d&e=f"), " @ana b @c d e f");
    assert_eq!(reader.tidy("@eva"), " @e");
    assert_eq!(reader.tidy(""), " ");
}

#[test]
fn scores_of_digits() {
    assert_eq!(read_score(Some("11".to_string())), Some(11));
    assert_eq!(read_score(Some("07".to_string())), Some(7));
    assert_eq!(read_score(Some("255".to_string())), Some(255));
    assert_eq!(read_score(Some("256".to_string())), None);
    assert_eq!(read_score(Some("٣".to_string())), None);
    assert_eq!(read_score(Some("".to_string())), None);
    assert_eq!(read_score(None), None);
    assert_eq!(scores_from(Some("11".to_string()), Some("7".to_string())), (11, 7));
    assert_eq!(scores_from(Some("11".to_string()), None), (0, 0));
    assert_eq!(scores_from(None, Some("7".to_string())), (0, 0));
    assert_eq!(scores_from(Some("x".to_string()), Some("7".to_string())), (0, 0));
}

#[test]
fn score_is_taken_out() {
    assert_eq!(take_out_score(" @a @b 11 7", 11), "@a @b  7");
    assert_eq!(take_out_score("@a @b  7", 7), "@a @b");
    assert_eq!(take_out_score("7 7", 7), "7");
    assert_eq!(take_out_score(" 11 110", 11), "0");
    assert_eq!(take_out_score(" a ", 0), "a");
}

#[test]
fn scores_are_read_and_taken_out() {
    let reader = ScoreReader::new().unwrap();
    let mut message = " @me @ana @luis @bob 11 7".to_string();
    assert_eq!(reader.extract_scores(&mut message), (11, 7));
    assert_eq!(message, "@me @ana @luis @bob");
    let mut message = " 3 @a 15 @b 9".to_string();
    assert_eq!(reader.extract_scores(&mut message), (3, 9));
    assert_eq!(message, "@a 15 @b");
    let mut message = " @a 11".to_string();
    assert_eq!(reader.extract_scores(&mut message), (0, 0));
    assert_eq!(message, "@a 11");
    let mut message = " 123 456".to_string();
    assert_eq!(reader.extract_scores(&mut message), (12, 45));
    assert_eq!(message, "3 6");
}

#[test]
fn four_players_one_after_the_other() {
    let club = club();
    let mut message = "@me @ana @lucho @bob".to_string();
    let four = pick_players(&club, &"Julio Guti".to_string(), &mut message).unwrap();
    assert_eq!(four, vec![&club[0], &club[1], &club[2], &club[3]]);
    assert_eq!(message, "");
    let mut message = "@bob @luis @5215511111111 @ana and more".to_string();
    let four = pick_players(&club, &"x".to_string(), &mut message).unwrap();
    assert_eq!(four, vec![&club[3], &club[2], &club[0], &club[1]]);
    assert_eq!(message, "and more");
}

#[test]
fn player_who_is_not_found() {
    let club = club();
    let mut message = "@zed @ana @luis @bob".to_string();
    assert_eq!(pick_players(&club, &"Ana".to_string(), &mut message), Err(RowError::BadPlayer(1)));
    assert_eq!(message, "@zed @ana @luis @bob");
    let mut message = "@ana @bob @ana @luis".to_string();
    assert_eq!(pick_players(&club, &"Ana".to_string(), &mut message), Err(RowError::BadPlayer(3)));
    assert_eq!(message, "@ana @luis");
    let mut message = "@ana @bob @luis".to_string();
    assert_eq!(pick_players(&club, &"Ana".to_string(), &mut message), Err(RowError::BadPlayer(4)));
    assert_eq!(message, "");
}

#[test]
fn row_as_it_is_written() {
    let club = club();
    let four = vec![&club[0], &club[1], &club[2], &club[3]];
    assert_eq!(
        write_row("2024-11-08", &four, 11, 7),
        ",,,D,,2024-11-08,Julio Guti R,A1,,Ana R,B2,,Luis R,C3,,Bob R,D4,,,11,7"
    );
    let four = vec![&club[3], &club[3], &club[3], &club[3]];
    assert_eq!(write_row("", &four, 0, 255), ",,,D,,,Bob R,D4,,Bob R,D4,,Bob R,D4,,Bob R,D4,,,0,255");
}

#[test]
fn message_to_row() {
    let reader = ScoreReader::new().unwrap();
    let club = club();
    assert_eq!(
        reader.process_message(
            &club,
            &day(2024, 11, 8),
            &"Julio Guti".to_string(),
            &"@me @Ana vs @Luis @Bob 11-7".to_string()
        ),
        Ok(",,,D,,2024-11-08,Julio Guti R,A1,,Ana R,B2,,Luis R,C3,,Bob R,D4,,,11,7".to_string())
    );
}

#[test]
fn messages_that_give_no_row() {
    let reader = ScoreReader::new().unwrap();
    let club = club();
    let sender = "Julio Guti".to_string();
    let sent = day(2024, 11, 8);
    let row = |text: &str, sent: &Timestamp| reader.process_message(&club, sent, &sender, &text.to_string());
    assert_eq!(row("hello there", &sent), Err(RowError::BadScores));
    assert_eq!(row("@me @ana vs @luis @bob 11-11", &sent), Err(RowError::BadScores));
    assert_eq!(row("@me @ana vs @luis @bob 11", &sent), Err(RowError::BadScores));
    assert_eq!(row("@zed @ana vs @luis @bob 11-7", &sent), Err(RowError::BadPlayer(1)));
    assert_eq!(row("@me @me vs @luis @bob 11-7", &sent), Err(RowError::BadPlayer(2)));
    assert_eq!(row("@me @ana vs @luis 11-7", &sent), Err(RowError::BadPlayer(4)));
    assert_eq!(row("@me @ana vs @luis @bob 11-7", &day(2023, 2, 30)), Err(RowError::BadDate));
}

#[test]
fn lines_that_may_report_a_game() {
    let reader = ScoreReader::new().unwrap();
    assert!(reader.mentions_game("11-7"));
    assert!(reader.mentions_game("@me @ana vs @luis @bob 11 7"));
    assert!(reader.mentions_game("a 1 b 2"));
    assert!(!reader.mentions_game("2:15"));
    assert!(!reader.mentions_game("11"));
    assert!(!reader.mentions_game("11@7"));
    assert!(!reader.mentions_game("hello"));
    assert!(reader.any_mentions_game(&vec!["hello".to_string(), "11-7".to_string()]));
    assert!(!reader.any_mentions_game(&vec!["hello".to_string(), "117".to_string()]));
    assert!(!reader.any_mentions_game(&vec![]));
}

fn gave(message: usize, line: usize, outcome: Result<&str, RowError>) -> ReportLine {
    ReportLine { message, line, outcome: outcome.map(|row| row.to_string()) }
}

#[test]
fn report_from_a_day_on() {
    let reader = ScoreReader::new().unwrap();
    let club = club();
    let game = "@me @ana vs @luis @bob 11-7";
    let messages = vec![
        said(day(2024, 11, 6), "Julio Guti", &[game]),
        said(day(2024, 11, 7), "Ana", &["no game"]),
        said(day(2024, 11, 5), "Bob", &["@me @ana vs @luis @julio 3-11", "thanks"]),
        Message::system_message(day(2024, 11, 8), "11-7".to_string()),
        Message::user_message(day(2024, 11, 8), "Ana".to_string(), MessageBody::Omitted),
        said(day(2024, 11, 9), "Julio Guti", &[game]),
    ];
    let since = Timestamp { year: 2024, month: 11, day: 7, hour: 0, minute: 0, second: 0 };
    assert_eq!(
        reader.report(&club, &messages, &since),
        vec![
            gave(2, 0, Ok(",,,D,,2024-11-05,Bob R,D4,,Ana R,B2,,Luis R,C3,,Julio Guti R,A1,,,3,11")),
            gave(2, 1, Err(RowError::BadScores)),
            gave(5, 0, Ok(",,,D,,2024-11-09,Julio Guti R,A1,,Ana R,B2,,Luis R,C3,,Bob R,D4,,,11,7")),
        ]
    );
    let early = Timestamp { year: 2000, month: 1, day: 1, hour: 0, minute: 0, second: 0 };
    assert_eq!(reader.report(&club, &messages, &early).len(), 4);
    assert_eq!(reader.report(&club, &messages, &early)[0].message, 0);
    let late = Timestamp { year: 2025, month: 1, day: 1, hour: 0, minute: 0, second: 0 };
    assert_eq!(reader.report(&club, &messages, &late), vec![]);
    assert_eq!(reader.report(&club, &vec![], &since), vec![]);
}

#[test]
fn rows_of_one_message_are_added() {
    let reader = ScoreReader::new().unwrap();
    let club = club();
    let mut out = vec![gave(1, 2, Err(RowError::BadDate))];
    reader.add_rows(&mut out, &club, &said(day(2024, 11, 9), "Ana", &["hello", "bye"]), 7);
    assert_eq!(out, vec![gave(1, 2, Err(RowError::BadDate))]);
    reader.add_rows(&mut out, &club, &said(day(2024, 11, 9), "Ana", &["hello", "1-2"]), 7);
    assert_eq!(
        out,
        vec![
            gave(1, 2, Err(RowError::BadDate)),
            gave(7, 0, Err(RowError::BadScores)),
            gave(7, 1, Err(RowError::BadPlayer(1))),
        ]
    );
}

#[test]
fn readers_are_built() {
    assert!(ScoreReader::new().is_ok());
}
