use rextedi::document::{join_lines, parse_text};

fn parsed(text: &str) -> (Vec<String>, bool) {
    parse_text(text)
}

#[test]
fn parse_splits_on_lf() {
    let (lines, crlf) = parsed("a\nb\n");
    assert_eq!(lines, vec!["a", "b", ""]);
    assert!(!crlf);
}

#[test]
fn parse_treats_crlf_as_one_break() {
    let (lines, crlf) = parsed("one\r\ntwo");
    assert_eq!(lines, vec!["one", "two"]);
    assert!(crlf);
}

#[test]
fn parse_empty_text_gives_one_empty_line() {
    let (lines, crlf) = parsed("");
    assert_eq!(lines, vec![""]);
    assert!(!crlf);
}

#[test]
fn parse_keeps_lone_cr() {
    let (lines, crlf) = parsed("x\ry\r");
    assert_eq!(lines, vec!["x\ry\r"]);
    assert!(!crlf);
}

#[test]
fn join_uses_the_line_break() {
    let lines = vec!["a".to_string(), "b".to_string(), "".to_string()];
    assert_eq!(join_lines(&lines, false), "a\nb\n");
    assert_eq!(join_lines(&lines, true), "a\r\nb\r\n");
    assert_eq!(join_lines(&Vec::new(), false), "");
}

#[test]
fn unedited_round_trip_lf() {
    let text = "first\nsecond line\n\nñ and e\u{301}\n";
    let (lines, crlf) = parse_text(text);
    assert_eq!(join_lines(&lines, crlf), text);
}

#[test]
fn unedited_round_trip_crlf() {
    let text = "first\r\nsecond\r\n\r\nlast";
    let (lines, crlf) = parse_text(text);
    assert_eq!(join_lines(&lines, crlf), text);
}

#[test]
fn mixed_line_breaks_are_written_as_crlf() {
    let (lines, crlf) = parse_text("a\r\nb\nc");
    assert_eq!(join_lines(&lines, crlf), "a\r\nb\r\nc");
}
