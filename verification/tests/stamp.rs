use dmerg::instant::Instant;
use dmerg::line::{get_line, get_line_split, split_line, LineError};
use dmerg::stamp::{parse, ParseFailure};

#[test]
fn parse_reads_journal_timestamp() {
    assert_eq!(parse("2021-09-17T07:24:29.446013+0000"), Ok(Instant::new(1631863469, 446_013_000, 0)));
}

#[test]
fn parse_reads_dmesg_timestamp_with_comma() {
    assert_eq!(parse("2021-09-17T07:24:23,364133+00:00"), Ok(Instant::new(1631863463, 364_133_000, 0)));
}

#[test]
fn parse_keeps_the_offset_and_finds_the_instant() {
    assert_eq!(parse("2024-01-01T05:30:00.000001+0530"), Ok(Instant::new(1704067200, 1_000, 19800)));
    assert_eq!(parse("2023-12-31T19:00:00.500000-0500"), Ok(Instant::new(1704067200, 500_000_000, -18000)));
}

fn malformed(account: &str) -> ParseFailure {
    ParseFailure::Malformed(account.to_string())
}

#[test]
fn parse_rejects_what_is_no_timestamp() {
    assert_eq!(parse(""), Err(malformed("premature end of input")));
    assert_eq!(parse("hello"), Err(malformed("input contains invalid characters")));
    assert_eq!(parse("2024-01-01T00:00:00.000000"), Err(malformed("premature end of input")));
    assert_eq!(parse("2024-13-01T00:00:00.000000+0000"), Err(malformed("input is out of range")));
    assert_eq!(parse("2024-01-01 00:00:00.000000+0000"), Err(malformed("input contains invalid characters")));
    assert_eq!(parse("2024-01-01T00:00:00.5+0000"), Err(malformed("input contains invalid characters")));
    assert_eq!(parse("2024-01-01T00:00:00.000000+0000 "), Err(malformed("trailing input")));
    assert_eq!(parse("2023-02-29T00:00:00.000000+0000"), Err(malformed("input is out of range")));
}

#[test]
fn instants_order_by_time_alone() {
    let earlier = parse("2024-01-01T01:30:00.000000+0200").unwrap();
    let later = parse("2024-01-01T00:00:00.000000+0000").unwrap();
    assert!(earlier.is_before(&later));
    assert!(!later.is_before(&earlier));
    assert!(later.is_at_or_after(&earlier));
    assert!(!earlier.is_at_or_after(&later));
    let same = parse("2024-01-01T02:00:00.000000+0200").unwrap();
    assert!(same.is_same_moment(&later));
    assert!(same.is_at_or_after(&later) && later.is_at_or_after(&same));
    assert!(!same.is_before(&later) && !later.is_before(&same));
    assert_ne!(same, later);
}

#[test]
fn instants_order_by_nanoseconds_within_a_second() {
    let a = Instant::new(10, 999_999_999, 0);
    let b = Instant::new(11, 0, 0);
    let c = Instant::new(11, 1, 3600);
    assert!(a.is_before(&b) && b.is_before(&c) && a.is_before(&c));
    assert!(!c.is_before(&b) && !b.is_before(&a));
    assert!(Instant::new(-5, 0, 0).is_before(&Instant::new(-4, 0, 0)));
    assert!(!a.is_same_moment(&b));
}

#[test]
fn get_line_gives_the_text_or_says_why_not() {
    assert_eq!(get_line(&Some(Ok("some text".to_string()))), Ok("some text".to_string()));
    assert_eq!(get_line(&Some(Ok(String::new()))), Ok(String::new()));
    assert_eq!(get_line(&None), Err(LineError::NoLine));
    let failed = Some(Err(std::io::Error::new(std::io::ErrorKind::Other, "broken pipe")));
    assert_eq!(get_line(&failed), Err(LineError::Unreadable("broken pipe".to_string())));
}

#[test]
fn line_error_says_what_went_wrong() {
    let failed = Some(Err(std::io::Error::new(std::io::ErrorKind::Other, "boom")));
    assert_eq!(get_line(&failed).unwrap_err().message(), "Error processing line: boom");
    assert_eq!(get_line(&None).unwrap_err().message(), "Error processing line");
    assert_eq!(LineError::Unreadable(String::new()).message(), "Error processing line: ");
    assert_eq!(LineError::NoLine.message(), "Error processing line");
    assert_eq!(LineError::Stamp(ParseFailure::Absent).message(), "Empty line");
    assert_eq!(LineError::Stamp(malformed("trailing input")).message(), "trailing input");
    assert_eq!(split_line("hello there").unwrap_err().message(), "input contains invalid characters");
}

#[test]
fn get_line_split_gives_instant_and_message() {
    let line = Some(Ok("2024-01-01T00:00:01.000000+0000   kernel:  usb 1-1:\tnew device ".to_string()));
    assert_eq!(
        get_line_split(&line),
        Ok((Instant::new(1704067201, 0, 0), "kernel: usb 1-1: new device".to_string()))
    );
    let bare = Some(Ok("2024-01-01T00:00:01.000000+0000".to_string()));
    assert_eq!(get_line_split(&bare), Ok((Instant::new(1704067201, 0, 0), String::new())));
}

#[test]
fn get_line_split_says_why_a_line_has_no_instant() {
    assert_eq!(get_line_split(&None), Err(LineError::Stamp(ParseFailure::Absent)));
    assert_eq!(get_line_split(&None).unwrap_err().message(), "Empty line");
    let failed = Some(Err(std::io::Error::new(std::io::ErrorKind::Other, "broken pipe")));
    assert_eq!(get_line_split(&failed), Err(LineError::NoLine));
    assert_eq!(get_line_split(&failed).unwrap_err().message(), "Error processing line");
    assert_eq!(get_line_split(&Some(Ok(String::new()))), Err(LineError::Stamp(ParseFailure::Absent)));
    assert_eq!(get_line_split(&Some(Ok(" \t ".to_string()))), Err(LineError::Stamp(ParseFailure::Absent)));
    assert_eq!(
        get_line_split(&Some(Ok("kernel: 2024-01-01T00:00:01.000000+0000".to_string()))),
        Err(LineError::Stamp(malformed("input contains invalid characters")))
    );
    assert_eq!(
        get_line_split(&Some(Ok("2024-01-01T00:00:61.000000+0000 late".to_string()))).unwrap_err().message(),
        "input is out of range"
    );
}

#[test]
fn split_line_reads_the_first_word_only() {
    assert_eq!(
        split_line("  2024-01-01T00:00:01,250000+00:00 a,b  c"),
        Ok((Instant::new(1704067201, 250_000_000, 0), "a,b c".to_string()))
    );
    assert_eq!(
        split_line("x 2024-01-01T00:00:01.000000+0000"),
        Err(LineError::Stamp(malformed("input contains invalid characters")))
    );
}
