use whatsapp_export_parser::entity::MessageBody;
use whatsapp_export_parser::event::{parse_event, read_event_line, EventDraft, EventLine};
use whatsapp_export_parser::timestamp::Timestamp;

fn at(year: i32, month: u32, day: u32, hour: u32, minute: u32) -> Timestamp {
    Timestamp { year, month, day, hour, minute, second: 0 }
}

fn lines(all: &[&str]) -> Vec<String> {
    all.iter().map(|l| l.to_string()).collect()
}

#[test]
fn what_a_line_says() {
    assert_eq!(read_event_line("Cancelled"), EventLine::Cancelled);
    assert_eq!(read_event_line("Start: 1/5/23, 7:00 PM"), EventLine::Start(at(2023, 1, 5, 19, 0)));
    assert_eq!(read_event_line("End: 12/31/99, 11:59 PM"), EventLine::End(at(1999, 12, 31, 23, 59)));
    assert_eq!(read_event_line("Start: tomorrow"), EventLine::Other);
    assert_eq!(read_event_line("Start:1/5/23, 7:00 PM"), EventLine::Other);
    assert_eq!(read_event_line("cancelled"), EventLine::Other);
    assert_eq!(read_event_line("Bring balls"), EventLine::Other);
    assert_eq!(read_event_line(""), EventLine::Other);
}

#[test]
fn event_without_lines_starts_when_sent() {
    let none = lines(&[]);
    assert_eq!(
        parse_event("Club night".to_string(), at(2023, 1, 2, 9, 5), &none, 0, 0),
        MessageBody::Event {
            title: "Club night".to_string(),
            description: "".to_string(),
            start_time: at(2023, 1, 2, 9, 5),
            end_time: None,
            cancelled: false,
        }
    );
}

#[test]
fn second_start_goes_to_the_description() {
    let all = lines(&["Start: 1/5/23, 7:00 PM", "Start: 1/6/23, 7:00 PM", "End: 1/5/23, 8:00 PM", "End: 1/5/23, 9:00 PM"]);
    assert_eq!(
        parse_event("t".to_string(), at(2023, 1, 2, 9, 5), &all, 0, 4),
        MessageBody::Event {
            title: "t".to_string(),
            description: "Start: 1/6/23, 7:00 PM\nEnd: 1/5/23, 9:00 PM".to_string(),
            start_time: at(2023, 1, 5, 19, 0),
            end_time: Some(at(2023, 1, 5, 20, 0)),
            cancelled: false,
        }
    );
}

#[test]
fn draft_line_by_line() {
    let draft = EventDraft::new();
    assert_eq!(draft, EventDraft { description: None, start: None, end: None, cancelled: false });
    let draft = draft.add_line(EventLine::Other, "a");
    let draft = draft.add_line(EventLine::End(at(2023, 1, 5, 20, 0)), "End: 1/5/23, 8:00 PM");
    let draft = draft.add_line(EventLine::Cancelled, "Cancelled");
    let draft = draft.add_line(EventLine::Other, "b");
    assert_eq!(
        draft,
        EventDraft {
            description: Some("a\nb".to_string()),
            start: None,
            end: Some(at(2023, 1, 5, 20, 0)),
            cancelled: true
        }
    );
    assert_eq!(
        draft.finish("t".to_string(), at(2023, 1, 2, 9, 5)),
        MessageBody::Event {
            title: "t".to_string(),
            description: "a\nb".to_string(),
            start_time: at(2023, 1, 2, 9, 5),
            end_time: Some(at(2023, 1, 5, 20, 0)),
            cancelled: true,
        }
    );
}

#[test]
fn event_of_part_of_the_lines() {
    let all = lines(&["Cancelled", "x", "Cancelled"]);
    assert_eq!(
        parse_event("t".to_string(), at(2023, 1, 2, 9, 5), &all, 1, 2),
        MessageBody::Event {
            title: "t".to_string(),
            description: "x".to_string(),
            start_time: at(2023, 1, 2, 9, 5),
            end_time: None,
            cancelled: false,
        }
    );
}
