use whatsapp_export_parser::entity::{MessageBody, PollOption};
use whatsapp_export_parser::poll::{begun_or_empty, parse_poll, parse_poll_option, push_line};

fn option(text: &str, votes: u32) -> Option<PollOption> {
    Some(PollOption { option: text.to_string(), votes })
}

fn lines(all: &[&str]) -> Vec<String> {
    all.iter().map(|l| l.to_string()).collect()
}

#[test]
fn option_with_and_without_prefix() {
    assert_eq!(parse_poll_option("OPTION: North court (3 votes)"), option("North court", 3));
    assert_eq!(parse_poll_option("North court (3 votes)"), option("North court", 3));
    assert_eq!(parse_poll_option("OPTION: South (1 vote)"), option("South", 1));
    assert_eq!(parse_poll_option("OPTION:  (0 votes)"), option("", 0));
    assert_eq!(parse_poll_option(" (0 votes)"), option("", 0));
}

#[test]
fn option_with_brackets_in_its_text() {
    assert_eq!(parse_poll_option("Court (north) 12 (10 votes)"), option("Court (north) 12", 10));
    assert_eq!(parse_poll_option("a (1 vote) (2 votes)"), option("a (1 vote)", 2));
}

#[test]
fn votes_up_to_32_bits() {
    assert_eq!(parse_poll_option("a (4294967295 votes)"), option("a", 4294967295));
    assert_eq!(parse_poll_option("a (0004294967295 votes)"), option("a", 4294967295));
    assert_eq!(parse_poll_option("a (4294967296 votes)"), None);
    assert_eq!(parse_poll_option("a (99999999999999999999999 votes)"), None);
}

#[test]
fn lines_that_are_no_option() {
    assert_eq!(parse_poll_option("Where do we play?"), None);
    assert_eq!(parse_poll_option("a (3 votes"), None);
    assert_eq!(parse_poll_option("a ( votes)"), None);
    assert_eq!(parse_poll_option("a (x3 votes)"), None);
    assert_eq!(parse_poll_option("a(3 votes)"), None);
    assert_eq!(parse_poll_option("a (-3 votes)"), None);
    assert_eq!(parse_poll_option("a (3 Votes)"), None);
    assert_eq!(parse_poll_option("(3 votes)"), None);
    assert_eq!(parse_poll_option(""), None);
}

#[test]
fn poll_of_title_and_options() {
    let all = lines(&["before", "Q?", "OPTION: a (2 votes)", "b (1 vote)", "after"]);
    assert_eq!(
        parse_poll(&all, 1, 4),
        MessageBody::Poll {
            title: "Q?".to_string(),
            options: vec![
                PollOption { option: "a".to_string(), votes: 2 },
                PollOption { option: "b".to_string(), votes: 1 },
            ],
        }
    );
}

#[test]
fn poll_without_lines() {
    let all = lines(&["x"]);
    assert_eq!(parse_poll(&all, 1, 1), MessageBody::Poll { title: "".to_string(), options: vec![] });
    assert_eq!(parse_poll(&all, 0, 0), MessageBody::Poll { title: "".to_string(), options: vec![] });
}

#[test]
fn title_of_several_lines() {
    let all = lines(&["Q?", "a (2 votes)", "", "really", "b (5 votes)"]);
    assert_eq!(
        parse_poll(&all, 0, 5),
        MessageBody::Poll {
            title: "Q?\n\nreally".to_string(),
            options: vec![
                PollOption { option: "a".to_string(), votes: 2 },
                PollOption { option: "b".to_string(), votes: 5 },
            ],
        }
    );
}

#[test]
fn lines_are_joined_by_line_feeds() {
    assert_eq!(push_line(None, "a"), "a");
    assert_eq!(push_line(Some("a".to_string()), "b"), "a\nb");
    assert_eq!(push_line(Some("".to_string()), ""), "\n");
    assert_eq!(begun_or_empty(None), "");
    assert_eq!(begun_or_empty(Some("a".to_string())), "a");
}
