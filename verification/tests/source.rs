use whatsapp_export_parser::boundary::{Boundary, BoundaryDetector};
use whatsapp_export_parser::source::{split_lines, LineSource};
use whatsapp_export_parser::timestamp::{read_timestamp, Timestamp};

#[test]
fn lines_end_at_line_feeds() {
    assert_eq!(split_lines("a\nb"), vec!["a", "b"]);
    assert_eq!(split_lines("a\nb\n"), vec!["a", "b"]);
    assert_eq!(split_lines("a\n\nb"), vec!["a", "", "b"]);
    assert_eq!(split_lines("\n"), vec![""]);
    assert_eq!(split_lines("\n\n"), vec!["", ""]);
    assert_eq!(split_lines("a"), vec!["a"]);
    assert_eq!(split_lines(""), Vec::<String>::new());
}

#[test]
fn carriage_return_before_line_feed_goes() {
    assert_eq!(split_lines("a\r\nb\r\n"), vec!["a", "b"]);
    assert_eq!(split_lines("a\r\r\nb"), vec!["a\r", "b"]);
    assert_eq!(split_lines("a\rb\n"), vec!["a\rb"]);
    assert_eq!(split_lines("a\r"), vec!["a\r"]);
    assert_eq!(split_lines("\r\n"), vec![""]);
}

#[test]
fn lines_as_the_standard_library_cuts_them() {
    for text in ["", "a", "a\n", "\n", "a\r\nb", "a\n\r\n\nb\r", "\r", "x\r\n\r\n", "é\nü\n"] {
        let expected: Vec<String> = text.lines().map(|l| l.to_string()).collect();
        assert_eq!(split_lines(text), expected);
    }
}

#[test]
fn peek_stays_and_pull_moves() {
    let mut source = LineSource::from_text("a\nb");
    assert_eq!(source.peek(), Some(&"a".to_string()));
    assert_eq!(source.peek(), Some(&"a".to_string()));
    assert_eq!(source.pull(), Some("a".to_string()));
    assert_eq!(source.peek(), Some(&"b".to_string()));
    assert_eq!(source.pull(), Some("b".to_string()));
    assert_eq!(source.peek(), None);
    assert_eq!(source.pull(), None);
    assert_eq!(source.pull(), None);
}

#[test]
fn boundary_in_two_parts() {
    let detector = BoundaryDetector::new().unwrap();
    assert_eq!(
        detector.detect("9/20/24, 2:15 PM - Julio Guti: Hello"),
        Some(Boundary { stamp: "9/20/24, 2:15 PM".to_string(), rest: "Julio Guti: Hello".to_string() })
    );
    assert_eq!(
        detector.detect("9/20/24, 2:15 PM - "),
        Some(Boundary { stamp: "9/20/24, 2:15 PM".to_string(), rest: "".to_string() })
    );
    assert_eq!(
        detector.detect("9/20/24, 2:15\u{202f}PM - a - b"),
        Some(Boundary { stamp: "9/20/24, 2:15\u{202f}PM".to_string(), rest: "a - b".to_string() })
    );
}

#[test]
fn lines_that_start_no_message() {
    let detector = BoundaryDetector::new().unwrap();
    for line in [
        "",
        "Hello",
        " 9/20/24, 2:15 PM - Ana: x",
        "9/20/24 2:15 PM - Ana: x",
        "9/20/24, 2:15 PM Ana: x",
        "9/20/24, 2:15 PM -Ana",
        "9/20, 2:15 PM - Ana: x",
        "9/20/24, 2:15 - Ana: x",
        "see 9/20/24, 2:15 PM - Ana: x",
    ] {
        assert!(!detector.is_boundary(line), "{:?}", line);
        assert_eq!(detector.detect(line), None);
    }
    assert!(detector.is_boundary("9/20/24, 2:15 PM - Ana: x"));
    assert!(detector.is_boundary("99/99/9999, 99:99 xx - "));
}

#[test]
fn timestamps_of_the_export() {
    let at = |year, month, day, hour, minute| Some(Timestamp { year, month, day, hour, minute, second: 0 });
    assert_eq!(read_timestamp("9/20/24, 2:15 PM"), at(2024, 9, 20, 14, 15));
    assert_eq!(read_timestamp("9/20/24, 2:15\u{202f}PM"), at(2024, 9, 20, 14, 15));
    assert_eq!(read_timestamp("12/31/99, 12:00 AM"), at(1999, 12, 31, 0, 0));
    assert_eq!(read_timestamp("01/02/03, 12:59 pm"), at(2003, 1, 2, 12, 59));
    assert_eq!(read_timestamp("2/29/24, 1:00 AM"), at(2024, 2, 29, 1, 0));
    assert_eq!(read_timestamp("2/29/23, 1:00 AM"), None);
    assert_eq!(read_timestamp("13/1/24, 1:00 AM"), None);
    assert_eq!(read_timestamp("1/1/24, 13:00 PM"), None);
    assert_eq!(read_timestamp("1/1/24, 1:60 PM"), None);
    assert_eq!(read_timestamp("1/1/24, 1:00"), None);
    assert_eq!(read_timestamp(""), None);
}

#[test]
fn earlier_and_later() {
    let t = |year, month, day, hour, minute, second| Timestamp { year, month, day, hour, minute, second };
    let a = t(2024, 11, 7, 0, 0, 0);
    assert!(!a.is_before(&a));
    assert!(t(2024, 11, 6, 23, 59, 59).is_before(&a));
    assert!(!a.is_before(&t(2024, 11, 6, 23, 59, 59)));
    assert!(t(2023, 12, 31, 23, 59, 59).is_before(&a));
    assert!(t(2024, 10, 30, 0, 0, 0).is_before(&a));
    assert!(a.is_before(&t(2024, 11, 7, 0, 0, 1)));
    assert!(a.is_before(&t(2024, 11, 7, 0, 1, 0)));
    assert!(a.is_before(&t(2024, 11, 7, 1, 0, 0)));
    assert!(!t(2025, 1, 1, 0, 0, 0).is_before(&a));
}

#[test]
fn date_of_a_row() {
    let t = |year, month, day| Timestamp { year, month, day, hour: 14, minute: 15, second: 0 };
    assert_eq!(t(2024, 11, 8).date_text(), Some("2024-11-08".to_string()));
    assert_eq!(t(999, 1, 2).date_text(), Some("0999-01-02".to_string()));
    assert_eq!(t(2024, 13, 8).date_text(), None);
    assert_eq!(t(2023, 2, 29).date_text(), None);
}

#[test]
fn stamp_dash_and_rest_make_the_line() {
    let detector = BoundaryDetector::new().unwrap();
    for line in [
        "9/20/24, 2:15 PM - Julio Guti: Hello",
        "9/20/24, 2:15\u{202f}PM - é - ü",
        "1/2/3, 4:5 x - ",
        "12/31/1999, 23:59\u{a0}Uhr -  - ",
    ] {
        let found = detector.detect(line).unwrap();
        assert_eq!(format!("{} - {}", found.stamp, found.rest), line);
    }
    assert_eq!(
        detector.detect("12/31/1999, 23:59\u{a0}Uhr -  - "),
        Some(Boundary { stamp: "12/31/1999, 23:59\u{a0}Uhr".to_string(), rest: " - ".to_string() })
    );
}

#[test]
fn detectors_are_built() {
    assert!(BoundaryDetector::new().is_ok());
}
