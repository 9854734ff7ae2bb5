use dmerg::instant::Instant;
use dmerg::line::LineError;
use dmerg::merge::{merge_entries, merge_logs, read_entry, read_log, Action, Entry, Merger, Phase, Source};

fn lines(texts: &[&str]) -> Vec<String> {
    texts.iter().map(|t| t.to_string()).collect()
}

fn entry(secs: Option<i64>, line: &str) -> Entry {
    Entry { stamp: secs.map(|s| Instant::new(s, 0, 0)), line: line.to_string() }
}

fn drive(
    system: &[Option<Result<String, std::io::Error>>],
    input: &[Option<Result<String, std::io::Error>>],
) -> Result<Vec<String>, (Vec<String>, LineError)> {
    let mut merger = Merger::new();
    let mut out = Vec::new();
    let mut s = 0;
    let mut i = 0;
    for _ in 0..1000 {
        match merger.advance() {
            Action::Pull(Source::System) => {
                let raw = if s < system.len() { &system[s] } else { &None };
                s += 1;
                match merger.supply_raw(Source::System, raw) {
                    Ok(taken) => assert!(taken),
                    Err(e) => {
                        assert_eq!(merger.advance(), Action::Fail(Source::System));
                        return Err((out, e));
                    }
                }
            }
            Action::Pull(Source::Input) => {
                let raw = if i < input.len() { &input[i] } else { &None };
                i += 1;
                match merger.supply_raw(Source::Input, raw) {
                    Ok(taken) => assert!(taken),
                    Err(e) => {
                        assert_eq!(merger.advance(), Action::Fail(Source::Input));
                        return Err((out, e));
                    }
                }
            }
            Action::Emit(line) => out.push(line),
            Action::Finish => return Ok(out),
            Action::Fail(source) => panic!("the merge failed on {:?} without saying so", source),
        }
    }
    panic!("the merge did not finish");
}

fn ok(text: &str) -> Option<Result<String, std::io::Error>> {
    Some(Ok(text.to_string()))
}

fn failed() -> Option<Result<String, std::io::Error>> {
    Some(Err(std::io::Error::new(std::io::ErrorKind::InvalidData, "stream did not contain valid UTF-8")))
}

#[test]
fn merge_interleaves_by_timestamp() {
    let a = lines(&["2024-01-01T00:00:01.000000+0000 sys-a"]);
    let b = lines(&["2024-01-01T00:00:00.000000+0000 in-b", "2024-01-01T00:00:02.000000+0000 in-c"]);
    assert_eq!(
        merge_logs(&a, &b),
        lines(&[
            "2024-01-01T00:00:00.000000+0000 in-b",
            "2024-01-01T00:00:01.000000+0000 sys-a",
            "2024-01-01T00:00:02.000000+0000 in-c",
        ])
    );
}

#[test]
fn merge_writes_input_first_on_equal_timestamps() {
    let a = lines(&["2024-01-01T00:00:01.000000+0000 from the system"]);
    let b = lines(&["2024-01-01T00:00:01.000000+0000 from the operator"]);
    assert_eq!(
        merge_logs(&a, &b),
        lines(&[
            "2024-01-01T00:00:01.000000+0000 from the operator",
            "2024-01-01T00:00:01.000000+0000 from the system",
        ])
    );
}

#[test]
fn merge_compares_instants_not_text() {
    // 01:30 at +02:00 is 23:30 UTC of the day before, earlier than 00:00 UTC.
    let a = lines(&["2024-01-01T01:30:00.000000+0200 ahead of utc"]);
    let b = lines(&["2024-01-01T00:00:00.000000+0000 at utc"]);
    assert_eq!(
        merge_logs(&a, &b),
        lines(&["2024-01-01T01:30:00.000000+0200 ahead of utc", "2024-01-01T00:00:00.000000+0000 at utc"])
    );
}

#[test]
fn merge_takes_both_decimal_separators() {
    let a = lines(&["2021-09-17T07:24:23,364133+00:00 dmesg style"]);
    let b = lines(&["2021-09-17T07:24:23.364132+0000 journal style"]);
    assert_eq!(
        merge_logs(&a, &b),
        lines(&["2021-09-17T07:24:23.364132+0000 journal style", "2021-09-17T07:24:23,364133+00:00 dmesg style"])
    );
}

#[test]
fn merge_without_input_is_the_system_log() {
    let a = lines(&[
        "2024-01-01T00:00:03.000000+0000 c",
        "no timestamp here",
        "2024-01-01T00:00:01.000000+0000 a",
        "",
    ]);
    assert_eq!(merge_logs(&a, &Vec::new()), a);
}

#[test]
fn merge_without_system_log_is_the_input() {
    let b = lines(&["2024-01-01T00:00:03.000000+0000 c", "no timestamp here", "2024-01-01T00:00:01.000000+0000 a"]);
    assert_eq!(merge_logs(&Vec::new(), &b), b);
}

#[test]
fn merge_of_two_empty_logs_is_empty() {
    assert_eq!(merge_logs(&Vec::new(), &Vec::new()), Vec::<String>::new());
}

#[test]
fn merge_drops_input_that_starts_unstamped_when_system_is_empty() {
    let b = lines(&["no timestamp here", "2024-01-01T00:00:01.000000+0000 a"]);
    assert_eq!(merge_logs(&Vec::new(), &b), Vec::<String>::new());
}

#[test]
fn merge_treats_system_log_with_unstamped_first_line_as_empty() {
    let a = lines(&["garbage", "2024-01-01T00:00:00.000000+0000 lost"]);
    let b = lines(&["2024-01-01T00:00:05.000000+0000 kept", "2024-01-01T00:00:06.000000+0000 kept too"]);
    assert_eq!(merge_logs(&a, &b), b);
}

#[test]
fn merge_ends_system_log_at_unstamped_line() {
    let a = lines(&[
        "2024-01-01T00:00:01.000000+0000 a1",
        "2024-01-01T00:00:03.000000+0000 a3",
        "garbage",
        "2024-01-01T00:00:04.000000+0000 a4",
    ]);
    let b = lines(&[
        "2024-01-01T00:00:02.000000+0000 b2",
        "2024-01-01T00:00:05.000000+0000 b5",
        "2024-01-01T00:00:06.000000+0000 b6",
    ]);
    assert_eq!(
        merge_logs(&a, &b),
        lines(&[
            "2024-01-01T00:00:01.000000+0000 a1",
            "2024-01-01T00:00:02.000000+0000 b2",
            "2024-01-01T00:00:03.000000+0000 a3",
            "2024-01-01T00:00:05.000000+0000 b5",
            "2024-01-01T00:00:06.000000+0000 b6",
        ])
    );
}

#[test]
fn merge_copies_rest_of_system_log_when_input_ends_first() {
    let a = lines(&[
        "2024-01-01T00:00:01.000000+0000 a1",
        "2024-01-01T00:00:09.000000+0000 a9",
        "garbage",
        "2024-01-01T00:00:04.000000+0000 a4",
    ]);
    let b = lines(&["2024-01-01T00:00:02.000000+0000 b2"]);
    assert_eq!(
        merge_logs(&a, &b),
        lines(&[
            "2024-01-01T00:00:01.000000+0000 a1",
            "2024-01-01T00:00:02.000000+0000 b2",
            "2024-01-01T00:00:09.000000+0000 a9",
            "garbage",
            "2024-01-01T00:00:04.000000+0000 a4",
        ])
    );
}

#[test]
fn merge_ends_input_at_unstamped_line() {
    let a = lines(&["2024-01-01T00:00:01.000000+0000 a1", "2024-01-01T00:00:07.000000+0000 a7"]);
    let b = lines(&["2024-01-01T00:00:02.000000+0000 b2", "garbage", "2024-01-01T00:00:03.000000+0000 b3"]);
    assert_eq!(
        merge_logs(&a, &b),
        lines(&[
            "2024-01-01T00:00:01.000000+0000 a1",
            "2024-01-01T00:00:02.000000+0000 b2",
            "2024-01-01T00:00:07.000000+0000 a7",
        ])
    );
}

#[test]
fn merge_of_stamped_logs_keeps_every_line_in_order() {
    let a = lines(&[
        "2024-01-01T00:00:01.000000+0000 a1",
        "2024-01-01T00:00:01.000000+0000 a1 again",
        "2024-01-01T00:00:04.500000+0000 a4",
        "2024-01-01T00:00:08.000000+0000 a8",
    ]);
    let b = lines(&[
        "2024-01-01T00:00:00.250000+0000 b0",
        "2024-01-01T00:00:01.000000+0000 b1",
        "2024-01-01T00:00:04.499999+0000 b4",
        "2024-01-01T00:00:09.000000+0000 b9",
        "2024-01-01T00:00:09.000000+0000 b9 again",
    ]);
    let out = merge_logs(&a, &b);
    assert_eq!(
        out,
        lines(&[
            "2024-01-01T00:00:00.250000+0000 b0",
            "2024-01-01T00:00:01.000000+0000 b1",
            "2024-01-01T00:00:01.000000+0000 a1",
            "2024-01-01T00:00:01.000000+0000 a1 again",
            "2024-01-01T00:00:04.499999+0000 b4",
            "2024-01-01T00:00:04.500000+0000 a4",
            "2024-01-01T00:00:08.000000+0000 a8",
            "2024-01-01T00:00:09.000000+0000 b9",
            "2024-01-01T00:00:09.000000+0000 b9 again",
        ])
    );
    let stamps: Vec<Instant> = read_log(&out).iter().map(|e| e.stamp.unwrap()).collect();
    for pair in stamps.windows(2) {
        assert!(!pair[1].is_before(&pair[0]));
    }
    let mut sorted_out = out.clone();
    sorted_out.sort();
    let mut all: Vec<String> = a.iter().chain(b.iter()).cloned().collect();
    all.sort();
    assert_eq!(sorted_out, all);
}

#[test]
fn merge_entries_orders_by_the_given_stamps() {
    let a = vec![entry(Some(1), "a1"), entry(Some(5), "a5")];
    let b = vec![entry(Some(1), "b1"), entry(Some(2), "b2"), entry(Some(6), "b6")];
    assert_eq!(merge_entries(&a, &b), lines(&["b1", "a1", "b2", "a5", "b6"]));
}

#[test]
fn merge_entries_stops_ordering_at_an_entry_without_stamp() {
    let a = vec![entry(Some(1), "a1"), entry(None, "a?"), entry(Some(0), "a0")];
    let b = vec![entry(Some(3), "b3"), entry(Some(2), "b2")];
    assert_eq!(merge_entries(&a, &b), lines(&["a1", "b3", "b2"]));
    let c = vec![entry(Some(0), "c0"), entry(None, "c?"), entry(Some(9), "c9")];
    assert_eq!(merge_entries(&a, &c), lines(&["c0", "a1", "a?", "a0"]));
}

#[test]
fn read_entry_keeps_the_line_and_reads_its_stamp() {
    let e = read_entry("2024-01-01T00:00:01.000000+0100 text".to_string());
    assert_eq!(e.line, "2024-01-01T00:00:01.000000+0100 text");
    assert_eq!(e.stamp, Some(Instant::new(1704067201 - 3600, 0, 3600)));
    let e = read_entry("text only".to_string());
    assert_eq!(e, Entry { stamp: None, line: "text only".to_string() });
    assert_eq!(e.duplicate(), e);
}

#[test]
fn merger_asks_for_input_then_system_then_writes() {
    let mut m = Merger::new();
    assert_eq!(m.phase(), Phase::Interleaving);
    assert_eq!(m.advance(), Action::Pull(Source::Input));
    assert_eq!(m.advance(), Action::Pull(Source::Input));
    assert!(m.supply(Source::Input, Some(entry(Some(2), "b2"))));
    assert!(!m.supply(Source::Input, Some(entry(Some(0), "unasked"))));
    assert_eq!(m.advance(), Action::Pull(Source::System));
    assert!(m.supply(Source::System, Some(entry(Some(1), "a1"))));
    assert_eq!(m.advance(), Action::Emit("a1".to_string()));
    assert_eq!(m.advance(), Action::Pull(Source::System));
    assert!(m.supply(Source::System, None));
    assert_eq!(m.advance(), Action::Emit("b2".to_string()));
    assert_eq!(m.phase(), Phase::Draining(Source::Input));
    assert_eq!(m.advance(), Action::Pull(Source::Input));
    assert!(m.supply(Source::Input, Some(entry(None, "whatever"))));
    assert_eq!(m.advance(), Action::Emit("whatever".to_string()));
    assert_eq!(m.advance(), Action::Pull(Source::Input));
    assert!(m.supply(Source::Input, None));
    assert_eq!(m.advance(), Action::Finish);
    assert_eq!(m.phase(), Phase::Finished);
    assert_eq!(m.advance(), Action::Finish);
    assert!(!m.supply(Source::System, Some(entry(Some(7), "late"))));
}

#[test]
fn merger_pulls_the_system_log_once_even_when_input_is_empty() {
    let mut m = Merger::new();
    assert_eq!(m.advance(), Action::Pull(Source::Input));
    assert!(m.supply(Source::Input, None));
    assert_eq!(m.advance(), Action::Pull(Source::System));
    assert!(m.supply(Source::System, None));
    assert_eq!(m.advance(), Action::Finish);
}

#[test]
fn merger_driven_with_raw_lines_matches_merge_logs() {
    let a = ["2024-01-01T00:00:01.000000+0000 a1", "2024-01-01T00:00:03.000000+0000 a3"];
    let b = ["2024-01-01T00:00:02.000000+0000 b2", "not stamped", "2024-01-01T00:00:00.000000+0000 b0"];
    let raw_a: Vec<_> = a.iter().map(|t| ok(t)).collect();
    let raw_b: Vec<_> = b.iter().map(|t| ok(t)).collect();
    assert_eq!(drive(&raw_a, &raw_b).unwrap(), merge_logs(&lines(&a), &lines(&b)));
    assert_eq!(drive(&raw_b, &raw_a).unwrap(), merge_logs(&lines(&b), &lines(&a)));
}

#[test]
fn merger_fails_on_a_failed_read_while_interleaving() {
    let a = vec![ok("2024-01-01T00:00:01.000000+0000 a1"), failed(), ok("2024-01-01T00:00:02.000000+0000 a2")];
    let b = vec![ok("2024-01-01T00:00:05.000000+0000 b5"), ok("2024-01-01T00:00:06.000000+0000 b6")];
    assert_eq!(
        drive(&a, &b),
        Err((
            lines(&["2024-01-01T00:00:01.000000+0000 a1"]),
            LineError::Unreadable("stream did not contain valid UTF-8".to_string())
        ))
    );
    assert_eq!(
        drive(&b, &a),
        Err((
            lines(&["2024-01-01T00:00:01.000000+0000 a1"]),
            LineError::Unreadable("stream did not contain valid UTF-8".to_string())
        ))
    );
}

#[test]
fn merger_fails_on_a_failed_read_while_copying_out() {
    let c = vec![
        ok("2024-01-01T00:00:05.000000+0000 c5"),
        ok("2024-01-01T00:00:06.000000+0000 c6"),
        failed(),
        ok("2024-01-01T00:00:07.000000+0000 c7"),
    ];
    let expected = Err((
        lines(&["2024-01-01T00:00:05.000000+0000 c5", "2024-01-01T00:00:06.000000+0000 c6"]),
        LineError::Unreadable("stream did not contain valid UTF-8".to_string()),
    ));
    assert_eq!(drive(&c, &[]), expected);
    assert_eq!(drive(&[], &c), expected);
}

#[test]
fn merger_fails_on_a_first_read_that_failed() {
    let expected = Err((Vec::new(), LineError::Unreadable("stream did not contain valid UTF-8".to_string())));
    assert_eq!(drive(&[ok("2024-01-01T00:00:05.000000+0000 a")], &[failed()]), expected);
    assert_eq!(drive(&[failed()], &[]), expected);
}

#[test]
fn merger_that_failed_stays_failed() {
    let mut m = Merger::new();
    assert!(m.wants(Source::Input) && m.wants(Source::System));
    assert_eq!(m.advance(), Action::Pull(Source::Input));
    assert!(m.supply(Source::Input, Some(entry(Some(2), "b2"))));
    assert!(!m.wants(Source::Input));
    assert!(!m.fail(Source::Input));
    assert_eq!(m.phase(), Phase::Interleaving);
    assert_eq!(m.advance(), Action::Pull(Source::System));
    assert!(m.fail(Source::System));
    assert_eq!(m.phase(), Phase::Failed(Source::System));
    assert_eq!(m.advance(), Action::Fail(Source::System));
    assert!(!m.wants(Source::System));
    assert!(!m.supply(Source::System, Some(entry(Some(1), "a1"))));
    assert_eq!(m.supply_raw(Source::System, &ok("2024-01-01T00:00:05.000000+0000 a")), Ok(false));
    assert_eq!(m.supply_raw(Source::System, &failed()), Ok(false));
    assert!(!m.fail(Source::System));
    assert_eq!(m.advance(), Action::Fail(Source::System));
    assert_eq!(m.phase(), Phase::Failed(Source::System));
}

#[test]
fn merger_drops_a_failed_read_it_did_not_ask_for() {
    let mut m = Merger::new();
    assert_eq!(m.supply_raw(Source::Input, &ok("2024-01-01T00:00:05.000000+0000 b")), Ok(true));
    assert_eq!(m.supply_raw(Source::Input, &failed()), Ok(false));
    assert_eq!(m.phase(), Phase::Interleaving);
    assert_eq!(m.advance(), Action::Pull(Source::System));
    assert_eq!(m.supply_raw(Source::System, &None), Ok(true));
    assert_eq!(m.advance(), Action::Emit("2024-01-01T00:00:05.000000+0000 b".to_string()));
}
