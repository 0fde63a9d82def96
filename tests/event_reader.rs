use ralph::event_reader::{Event, EventReader};

fn lines_as_text(lines: &[Vec<u8>]) -> Vec<String> {
    lines.iter().map(|l| String::from_utf8(l.clone()).unwrap()).collect()
}

#[test]
fn frames_lines_and_advances_past_all_of_them() {
    let log = b"{\"topic\":\"good\",\"ts\":\"2024-01-01T00:00:00Z\"}\n{bad json}\n{\"topic\":\"also_good\",\"ts\":\"2024-01-01T00:00:01Z\"}\n";
    let mut reader = EventReader::new("events.jsonl");
    let lines = reader.take_lines(log);
    let text = lines_as_text(&lines);
    assert_eq!(text.len(), 3);
    assert_eq!(text[1], "{bad json}");
    assert_eq!(reader.position(), log.len() as u64);
}

#[test]
fn blank_lines_are_skipped_but_counted() {
    let log = b"\n   \n{\"topic\":\"x\",\"ts\":\"t\"}\n\t\n";
    let mut reader = EventReader::new("events.jsonl");
    let lines = reader.take_lines(log);
    assert_eq!(lines_as_text(&lines), vec!["{\"topic\":\"x\",\"ts\":\"t\"}".to_string()]);
    assert_eq!(reader.position(), log.len() as u64);
}

#[test]
fn last_line_without_newline_counts_one_more_byte() {
    let mut reader = EventReader::new("events.jsonl");
    let lines = reader.take_lines(b"abc");
    assert_eq!(lines_as_text(&lines), vec!["abc".to_string()]);
    assert_eq!(reader.position(), 4);
}

#[test]
fn empty_tail_reads_nothing_and_keeps_position() {
    let mut reader = EventReader::new("events.jsonl");
    reader.take_lines(b"one\ntwo\n");
    let position = reader.position();
    assert!(reader.take_lines(b"").is_empty());
    assert!(reader.take_lines(b"").is_empty());
    assert_eq!(reader.position(), position);
}

#[test]
fn position_only_grows_until_reset() {
    let mut reader = EventReader::new("events.jsonl");
    assert_eq!(reader.position(), 0);
    reader.take_lines(b"first\n");
    let after_first = reader.position();
    reader.take_lines(b"second\n");
    assert!(reader.position() > after_first);
    assert_eq!(reader.position(), 13);
    reader.reset();
    assert_eq!(reader.position(), 0);
    assert_eq!(reader.path(), "events.jsonl");
}

#[test]
fn record_fields() {
    let record = Event::new("test", Some("hello"), "2024-01-01T00:00:00Z");
    assert_eq!(record.topic, "test");
    assert_eq!(record.payload, Some("hello".to_string()));
    assert_eq!(record.ts, "2024-01-01T00:00:00Z");
    assert_eq!(Event::new("t", None, "s").payload, None);
}
