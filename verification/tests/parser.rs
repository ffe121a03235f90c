use whatsapp_export_parser::boundary::{BoundaryDetector, PatternRejected};
use whatsapp_export_parser::entity::{Message, MessageBody, MessageType, PollOption};
use whatsapp_export_parser::parser::{LineError, MessageParser};
use whatsapp_export_parser::source::LineSource;
use whatsapp_export_parser::timestamp::Timestamp;

fn at(year: i32, month: u32, day: u32, hour: u32, minute: u32) -> Timestamp {
    Timestamp { year, month, day, hour, minute, second: 0 }
}

fn all(text: &str) -> Vec<Result<Message, LineError>> {
    MessageParser::new_from_string(text).unwrap().collect()
}

#[test]
fn parse_text() {
    // The time is written with a narrow no-break space before `PM`; the
    // first line ends with two line feeds, and the last line is indented.
    let mut p = MessageParser::new_from_string(
        "9/20/24, 2:15\u{202f}PM - Julio Guti: Hello\n
                World",
    )
    .unwrap();
    let m = p.next().unwrap().unwrap();
    match m.message_type {
        MessageType::System(_) => panic!("a user sent this"),
        MessageType::User { sender, body } => {
            assert_eq!(sender, "Julio Guti");
            match body {
                MessageBody::Text { text, edited } => {
                    assert_eq!(text, vec!["Hello", "", "                World"]);
                    assert!(!edited);
                }
                other => panic!("not a text: {:?}", other),
            }
        }
    }
    assert!(p.next().is_none());
}

#[test]
fn two_lines_of_text() {
    let items = all("9/20/24, 2:15 PM - Julio Guti: Hello\nWorld");
    assert_eq!(
        items,
        vec![Ok(Message {
            date_time: at(2024, 9, 20, 14, 15),
            message_type: MessageType::User {
                sender: "Julio Guti".to_string(),
                body: MessageBody::Text {
                    text: vec!["Hello".to_string(), "World".to_string()],
                    edited: false,
                },
            },
        })]
    );
}

#[test]
fn media_omitted() {
    let items = all("1/2/23, 9:05 AM - Ana: <Media omitted>");
    assert_eq!(
        items,
        vec![Ok(Message::user_message(
            at(2023, 1, 2, 9, 5),
            "Ana".to_string(),
            MessageBody::Omitted
        ))]
    );
}

#[test]
fn poll_with_options_in_order() {
    let items = all(
        "1/2/23, 9:05 AM - Ana: POLL:\nWhere do we play?\nOPTION: North court (3 votes)\nOPTION: South court (1 vote)\nOPTION: Anywhere (0 votes)\n1/2/23, 9:06 AM - Luis: ok",
    );
    assert_eq!(items.len(), 2);
    assert_eq!(
        items[0],
        Ok(Message::user_message(
            at(2023, 1, 2, 9, 5),
            "Ana".to_string(),
            MessageBody::Poll {
                title: "Where do we play?".to_string(),
                options: vec![
                    PollOption { option: "North court".to_string(), votes: 3 },
                    PollOption { option: "South court".to_string(), votes: 1 },
                    PollOption { option: "Anywhere".to_string(), votes: 0 },
                ],
            }
        ))
    );
    assert_eq!(
        items[1],
        Ok(Message::user_message(
            at(2023, 1, 2, 9, 6),
            "Luis".to_string(),
            MessageBody::Text { text: vec!["ok".to_string()], edited: false }
        ))
    );
}

#[test]
fn malformed_line_between_two_messages() {
    let items = all(
        "1/2/23, 9:05 AM - Ana: <Media omitted>\nnot a message\n1/2/23, 9:06 AM - Luis: ok",
    );
    assert_eq!(
        items,
        vec![
            Ok(Message::user_message(
                at(2023, 1, 2, 9, 5),
                "Ana".to_string(),
                MessageBody::Omitted
            )),
            Err(LineError::Format("not a message".to_string())),
            Ok(Message::user_message(
                at(2023, 1, 2, 9, 6),
                "Luis".to_string(),
                MessageBody::Text { text: vec!["ok".to_string()], edited: false }
            )),
        ]
    );
}

#[test]
fn empty_text_gives_nothing() {
    assert_eq!(all(""), vec![]);
    let mut p = MessageParser::new_from_string("").unwrap();
    assert!(p.next().is_none());
    assert!(p.next().is_none());
}

#[test]
fn last_message_needs_no_line_after_it() {
    let mut p = MessageParser::new_from_string("1/2/23, 9:05 AM - Ana: one\ntwo\nthree").unwrap();
    let m = p.next().unwrap().unwrap();
    assert_eq!(
        m,
        Message::user_message(
            at(2023, 1, 2, 9, 5),
            "Ana".to_string(),
            MessageBody::Text {
                text: vec!["one".to_string(), "two".to_string(), "three".to_string()],
                edited: false
            }
        )
    );
    assert!(p.next().is_none());
}

#[test]
fn lookahead_leaves_the_next_message_whole() {
    let items = all("1/2/23, 9:05 AM - Ana: one\ntwo\n1/2/23, 11:59 PM - Luis: three\nfour\n");
    assert_eq!(
        items,
        vec![
            Ok(Message::user_message(
                at(2023, 1, 2, 9, 5),
                "Ana".to_string(),
                MessageBody::Text { text: vec!["one".to_string(), "two".to_string()], edited: false }
            )),
            Ok(Message::user_message(
                at(2023, 1, 2, 23, 59),
                "Luis".to_string(),
                MessageBody::Text {
                    text: vec!["three".to_string(), "four".to_string()],
                    edited: false
                }
            )),
        ]
    );
}

#[test]
fn notice_without_sender() {
    let items = all("12/31/22, 12:00 AM - Ana added Luis\n1/1/23, 12:30 PM - Luis: hi");
    assert_eq!(
        items,
        vec![
            Ok(Message::system_message(at(2022, 12, 31, 0, 0), "Ana added Luis".to_string())),
            Ok(Message::user_message(
                at(2023, 1, 1, 12, 30),
                "Luis".to_string(),
                MessageBody::Text { text: vec!["hi".to_string()], edited: false }
            )),
        ]
    );
}

#[test]
fn notice_takes_no_following_line() {
    let items = all("12/31/22, 12:00 AM - Ana added Luis\nand more");
    assert_eq!(
        items,
        vec![
            Ok(Message::system_message(at(2022, 12, 31, 0, 0), "Ana added Luis".to_string())),
            Err(LineError::Format("and more".to_string())),
        ]
    );
}

#[test]
fn timestamp_that_is_no_date() {
    let items = all("13/45/24, 2:15 PM - Ana: hi\n1/1/23, 12:30 PM - Luis: hi");
    assert_eq!(
        items,
        vec![
            Err(LineError::Timestamp("13/45/24, 2:15 PM - Ana: hi".to_string())),
            Ok(Message::user_message(
                at(2023, 1, 1, 12, 30),
                "Luis".to_string(),
                MessageBody::Text { text: vec!["hi".to_string()], edited: false }
            )),
        ]
    );
}

#[test]
fn malformed_first_line() {
    let items = all("hello\n1/1/23, 12:30 PM - Luis: hi");
    assert_eq!(items.len(), 2);
    assert_eq!(items[0], Err(LineError::Format("hello".to_string())));
    assert!(items[1].is_ok());
}

#[test]
fn same_text_twice_gives_the_same_messages() {
    let text = "1/2/23, 9:05 AM - Ana: POLL:\nQ\nA (1 vote)\nnoise\n1/2/23, 9:06 AM - Luis: ok <This message was edited>\nmore";
    let first = all(text);
    let second = all(text);
    assert_eq!(first, second);
    assert_eq!(first.len(), 2);
    let mut one_by_one = Vec::new();
    let mut p = MessageParser::new_from_string(text).unwrap();
    while let Some(item) = p.next() {
        one_by_one.push(item);
    }
    assert_eq!(one_by_one, first);
}

#[test]
fn edited_text_of_two_lines() {
    let items = all("1/2/23, 9:05 AM - Ana: Hello <This message was edited>\nWorld");
    assert_eq!(
        items,
        vec![Ok(Message::user_message(
            at(2023, 1, 2, 9, 5),
            "Ana".to_string(),
            MessageBody::Text { text: vec!["Hello ".to_string(), "World".to_string()], edited: true }
        ))]
    );
}

#[test]
fn attachment_and_location_are_one_line() {
    let items = all(
        "1/2/23, 9:05 AM - Ana: IMG-0001.jpg (file attached)\n1/2/23, 9:06 AM - Ana: location: https://maps.google.com/?q=19.4326,-99.1332",
    );
    assert_eq!(
        items,
        vec![
            Ok(Message::user_message(
                at(2023, 1, 2, 9, 5),
                "Ana".to_string(),
                MessageBody::Attachment("IMG-0001.jpg".to_string())
            )),
            Ok(Message::user_message(
                at(2023, 1, 2, 9, 6),
                "Ana".to_string(),
                MessageBody::Location { lat: "19.4326".to_string(), long: "-99.1332".to_string() }
            )),
        ]
    );
}

#[test]
fn event_with_its_lines() {
    let items = all(
        "1/2/23, 9:05 AM - Ana: EVENT: Club night\nBring balls\nStart: 1/5/23, 7:00 PM\nEnd: 1/5/23, 9:30 PM\nCancelled\nAnd water\n1/2/23, 9:06 AM - Luis: ok",
    );
    assert_eq!(items.len(), 2);
    assert_eq!(
        items[0],
        Ok(Message::user_message(
            at(2023, 1, 2, 9, 5),
            "Ana".to_string(),
            MessageBody::Event {
                title: "Club night".to_string(),
                description: "Bring balls\nAnd water".to_string(),
                start_time: at(2023, 1, 5, 19, 0),
                end_time: Some(at(2023, 1, 5, 21, 30)),
                cancelled: true,
            }
        ))
    );
}

#[test]
fn carriage_returns_end_lines_too() {
    let items = all("1/2/23, 9:05 AM - Ana: one\r\ntwo\r\n");
    assert_eq!(
        items,
        vec![Ok(Message::user_message(
            at(2023, 1, 2, 9, 5),
            "Ana".to_string(),
            MessageBody::Text { text: vec!["one".to_string(), "two".to_string()], edited: false }
        ))]
    );
}

#[test]
fn position_by_hand() {
    let source = LineSource::new(vec![
        "1/2/23, 9:05 AM - Ana: <Media omitted>".to_string(),
        "1/2/23, 9:06 AM - Ana: ok".to_string(),
    ]);
    let mut p = MessageParser::new(source, BoundaryDetector::new().unwrap());
    assert_eq!(
        p.next(),
        Some(Ok(Message::user_message(at(2023, 1, 2, 9, 5), "Ana".to_string(), MessageBody::Omitted)))
    );
    assert_eq!(p.collect().len(), 1);
    assert_eq!(p.collect().len(), 0);
}

#[test]
fn parser_with_a_detector_or_none() {
    let mut p = MessageParser::with_detector("1/2/23, 9:05 AM - Ana: one\ntwo", BoundaryDetector::new())
        .ok()
        .unwrap();
    assert_eq!(
        p.collect(),
        vec![Ok(Message::user_message(
            at(2023, 1, 2, 9, 5),
            "Ana".to_string(),
            MessageBody::Text { text: vec!["one".to_string(), "two".to_string()], edited: false }
        ))]
    );
    assert_eq!(
        MessageParser::with_detector("1/2/23, 9:05 AM - Ana: one", Err(PatternRejected)).err(),
        Some(PatternRejected)
    );
    assert!(MessageParser::new_from_string("").is_ok());
}
