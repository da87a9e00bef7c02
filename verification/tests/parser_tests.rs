//! Line-parser behaviour: field lines, error lines, numerals, durations.

use mpdris2::parser::{parse_error_line, parse_line, parse_u64, MpdErrorType};
use mpdris2::status::parse_duration_ms;

#[test]
fn field_line_round_trips() {
    let (name, value) = parse_line("name: value\n").unwrap();
    assert_eq!(name, "name");
    assert_eq!(value, "value");
}

#[test]
fn field_line_with_hyphen_and_underscore() {
    let (name, value) = parse_line("Last-Modified_x: 2024-01-01\n").unwrap();
    assert_eq!(name, "Last-Modified_x");
    assert_eq!(value, "2024-01-01");
}

#[test]
fn field_line_empty_value() {
    let (name, value) = parse_line("tag: \n").unwrap();
    assert_eq!(name, "tag");
    assert_eq!(value, "");
}

#[test]
fn field_line_value_keeps_inner_spaces_and_colons() {
    let (name, value) = parse_line("Title: a: b c\n").unwrap();
    assert_eq!(name, "Title");
    assert_eq!(value, "a: b c");
}

#[test]
fn field_line_rejects_missing_newline() {
    assert!(parse_line("name: value").is_err());
}

#[test]
fn field_line_rejects_missing_space() {
    assert!(parse_line("name:value\n").is_err());
}

#[test]
fn field_line_rejects_embedded_newline() {
    assert!(parse_line("name: va\nlue\n").is_err());
}

#[test]
fn field_line_rejects_empty() {
    assert!(parse_line("").is_err());
}

#[test]
fn error_line_extracts_all_components() {
    let e = parse_error_line("ACK [50@0] {play} song doesn't exist\n").unwrap();
    assert!(matches!(e.source, MpdErrorType::NoExist));
    assert_eq!(e.command_list_no, 0);
    assert_eq!(e.current_command, "play");
    assert_eq!(e.msg, "song doesn't exist");
}

#[test]
fn error_line_code_mapping() {
    let variants = [
        ("1", MpdErrorType::NotList),
        ("2", MpdErrorType::BadArgument),
        ("3", MpdErrorType::BadPassword),
        ("4", MpdErrorType::Permission),
        ("50", MpdErrorType::NoExist),
        ("7", MpdErrorType::Unknown(7)),
        ("999", MpdErrorType::Unknown(999)),
    ];
    for (code, expected) in variants {
        let line = format!("ACK [{}@3] {{status}} oops\n", code);
        let e = parse_error_line(&line).unwrap();
        assert_eq!(e.source, expected);
        assert_eq!(e.command_list_no, 3);
        assert_eq!(e.current_command, "status");
        assert_eq!(e.msg, "oops");
    }
}

#[test]
fn error_type_from_code() {
    assert_eq!(MpdErrorType::from(1), MpdErrorType::NotList);
    assert_eq!(MpdErrorType::from(2), MpdErrorType::BadArgument);
    assert_eq!(MpdErrorType::from(3), MpdErrorType::BadPassword);
    assert_eq!(MpdErrorType::from(4), MpdErrorType::Permission);
    assert_eq!(MpdErrorType::from(50), MpdErrorType::NoExist);
    assert_eq!(MpdErrorType::from(51), MpdErrorType::Unknown(51));
}

#[test]
fn error_line_empty_command_is_legal() {
    let e = parse_error_line("ACK [5@0] {} unknown command\n").unwrap();
    assert_eq!(e.current_command, "");
    assert!(matches!(e.source, MpdErrorType::Unknown(5)));
}

#[test]
fn error_line_rejects_bad_shapes() {
    assert!(parse_error_line("ACK [x@0] {play} msg\n").is_err());
    assert!(parse_error_line("ACK [5@] {play} msg\n").is_err());
    assert!(parse_error_line("ACK [5@0] play} msg\n").is_err());
    assert!(parse_error_line("ACK [5@0] {play} msg").is_err());
    assert!(parse_error_line("nope\n").is_err());
}

#[test]
fn error_line_rejects_overflowing_code() {
    assert!(parse_error_line("ACK [99999999999999999999@0] {play} msg\n").is_err());
}

#[test]
fn parse_u64_basics() {
    assert_eq!(parse_u64("0"), Some(0));
    assert_eq!(parse_u64("007"), Some(7));
    assert_eq!(parse_u64("18446744073709551615"), Some(u64::MAX));
    assert_eq!(parse_u64("18446744073709551616"), None);
    assert_eq!(parse_u64(""), None);
    assert_eq!(parse_u64("12a"), None);
    assert_eq!(parse_u64("-1"), None);
}

#[test]
fn duration_parsing() {
    assert_eq!(parse_duration_ms("0"), Some(0));
    assert_eq!(parse_duration_ms("12"), Some(12_000));
    assert_eq!(parse_duration_ms("12.5"), Some(12_500));
    assert_eq!(parse_duration_ms("12.34"), Some(12_340));
    assert_eq!(parse_duration_ms("12.345"), Some(12_345));
    assert_eq!(parse_duration_ms("12.3456"), Some(12_345));
    assert_eq!(parse_duration_ms("3."), Some(3_000));
    assert_eq!(parse_duration_ms(".5"), None);
    assert_eq!(parse_duration_ms("1e3"), None);
    assert_eq!(parse_duration_ms("abc"), None);
    assert_eq!(parse_duration_ms(""), None);
}
