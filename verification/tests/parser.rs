use log_viewer::lines::split_lines;
use log_viewer::log_parser::{LogEntry, LogLevel, LogParser};

fn lines_of(entry: &LogEntry) -> Vec<&str> {
    entry.lines.iter().map(|l| l.as_str()).collect()
}

fn all_lines(entries: &[LogEntry]) -> Vec<String> {
    entries.iter().flat_map(|e| e.lines.iter().cloned()).collect()
}

#[test]
fn header_lines_open_entries_and_plain_lines_continue_them() {
    let entries = LogParser::new().parse("[t1] [INFO] a\nx\n[t2] [ERROR] b\n");
    assert_eq!(entries.len(), 2);
    assert_eq!(entries[0]._timestamp, "t1");
    assert_eq!(entries[0].level, LogLevel::Info);
    assert_eq!(entries[0]._message, "a");
    assert_eq!(lines_of(&entries[0]), vec!["[t1] [INFO] a", "x"]);
    assert_eq!(entries[1]._timestamp, "t2");
    assert_eq!(entries[1].level, LogLevel::Error);
    assert_eq!(entries[1]._message, "b");
    assert_eq!(lines_of(&entries[1]), vec!["[t2] [ERROR] b"]);
}

#[test]
fn lines_before_the_first_header_stand_alone() {
    let entries = LogParser::new().parse("free1\nfree2\n[t] [WARN] w\n");
    assert_eq!(entries.len(), 3);
    assert_eq!(entries[0].level, LogLevel::Debug);
    assert_eq!(entries[0]._timestamp, "");
    assert_eq!(entries[0]._message, "free1");
    assert_eq!(lines_of(&entries[0]), vec!["free1"]);
    assert_eq!(entries[1].level, LogLevel::Debug);
    assert_eq!(entries[1]._timestamp, "");
    assert_eq!(entries[1]._message, "free2");
    assert_eq!(lines_of(&entries[1]), vec!["free2"]);
    assert_eq!(entries[2].level, LogLevel::Warn);
    assert_eq!(entries[2]._timestamp, "t");
    assert_eq!(entries[2]._message, "w");
    assert_eq!(lines_of(&entries[2]), vec!["[t] [WARN] w"]);
}

#[test]
fn empty_text_has_no_entries() {
    assert!(LogParser::new().parse("").is_empty());
}

#[test]
fn a_last_line_without_line_feed_is_a_line() {
    let entries = LogParser::new().parse("[t] [DEBUG] d\ntrace");
    assert_eq!(entries.len(), 1);
    assert_eq!(entries[0].level, LogLevel::Debug);
    assert_eq!(lines_of(&entries[0]), vec!["[t] [DEBUG] d", "trace"]);
}

#[test]
fn a_stack_trace_stays_with_its_header() {
    let text = "[2024-01-01 10:00:00] [ERROR] boom\n  at a()\n  at b()\n\n[2024-01-01 10:00:01] [INFO] ok\n";
    let entries = LogParser::new().parse(text);
    assert_eq!(entries.len(), 2);
    assert_eq!(entries[0]._timestamp, "2024-01-01 10:00:00");
    assert_eq!(entries[0]._message, "boom");
    assert_eq!(
        lines_of(&entries[0]),
        vec!["[2024-01-01 10:00:00] [ERROR] boom", "  at a()", "  at b()", ""]
    );
    assert_eq!(entries[1]._timestamp, "2024-01-01 10:00:01");
    assert_eq!(entries[1].level, LogLevel::Info);
}

#[test]
fn an_unknown_level_token_makes_no_header() {
    let parser = LogParser::new();
    let entries = parser.parse("[t] [TRACE] x\n[t] [info] y\n[t] [INFO]z\n");
    assert_eq!(entries.len(), 3);
    for (entry, line) in entries.iter().zip(["[t] [TRACE] x", "[t] [info] y", "[t] [INFO]z"]) {
        assert_eq!(entry.level, LogLevel::Debug);
        assert_eq!(entry._timestamp, "");
        assert_eq!(entry._message, line);
        assert_eq!(lines_of(entry), vec![line]);
    }
    let entries = parser.parse("[t] [INFO] a\n[t] [TRACE] x\n");
    assert_eq!(entries.len(), 1);
    assert_eq!(lines_of(&entries[0]), vec!["[t] [INFO] a", "[t] [TRACE] x"]);
}

#[test]
fn each_of_the_four_levels_is_read() {
    let entries = LogParser::new().parse("[a] [DEBUG] 1\n[b] [INFO] 2\n[c] [WARN] 3\n[d] [ERROR] 4\n");
    let levels: Vec<LogLevel> = entries.iter().map(|e| e.level).collect();
    assert_eq!(levels, vec![LogLevel::Debug, LogLevel::Info, LogLevel::Warn, LogLevel::Error]);
    let stamps: Vec<&str> = entries.iter().map(|e| e._timestamp.as_str()).collect();
    assert_eq!(stamps, vec!["a", "b", "c", "d"]);
    let messages: Vec<&str> = entries.iter().map(|e| e._message.as_str()).collect();
    assert_eq!(messages, vec!["1", "2", "3", "4"]);
}

#[test]
fn the_timestamp_ends_at_the_first_place_that_splits() {
    let parser = LogParser::new();
    let h = parser.parse_header("[a] [INFO] x] [WARN] y").unwrap();
    assert_eq!(h.timestamp, "a");
    assert_eq!(h.level, LogLevel::Info);
    assert_eq!(h.message, "x] [WARN] y");
    let h = parser.parse_header("[a] b] [ERROR] m").unwrap();
    assert_eq!(h.timestamp, "a] b");
    assert_eq!(h.level, LogLevel::Error);
    assert_eq!(h.message, "m");
    let h = parser.parse_header("[] [DEBUG] ").unwrap();
    assert_eq!(h.timestamp, "");
    assert_eq!(h.level, LogLevel::Debug);
    assert_eq!(h.message, "");
    let h = parser.parse_header("[é ü] [WARN] žluťoučký kůň").unwrap();
    assert_eq!(h.timestamp, "é ü");
    assert_eq!(h.level, LogLevel::Warn);
    assert_eq!(h.message, "žluťoučký kůň");
}

#[test]
fn a_header_does_not_run_over_a_line_feed() {
    let parser = LogParser::new();
    assert!(parser.parse_header("[t\n] [INFO] a").is_none());
    assert!(parser.parse_header("\n[t] [INFO] a").is_none());
    let h = parser.parse_header("[t] [INFO] a\nb").unwrap();
    assert_eq!(h.timestamp, "t");
    assert_eq!(h.message, "a");
    let h = parser.parse_header("[t] [ERROR] \n").unwrap();
    assert_eq!(h.level, LogLevel::Error);
    assert_eq!(h.message, "");
}

#[test]
fn a_line_that_lacks_a_part_is_no_header() {
    let parser = LogParser::new();
    for line in [
        "",
        "[",
        "[t]",
        "[t] [INFO]",
        "[t] [INFO]x",
        "t] [INFO] x",
        " [t] [INFO] x",
        "[t][INFO] x",
        "[t] INFO x",
        "] [INFO] x",
        "[t] [INFOS] x",
        "[t] [ INFO] x",
    ] {
        assert!(parser.parse_header(line).is_none(), "{:?}", line);
    }
}

#[test]
fn carriage_returns_before_line_feeds_are_dropped() {
    let entries = LogParser::new().parse("[t] [INFO] a\r\nb\r\n");
    assert_eq!(entries.len(), 1);
    assert_eq!(entries[0]._message, "a");
    assert_eq!(lines_of(&entries[0]), vec!["[t] [INFO] a", "b"]);
}

#[test]
fn lines_are_split_as_the_standard_library_splits_them() {
    for text in [
        "",
        "\n",
        "\n\n",
        "a",
        "a\n",
        "a\nb",
        "a\r\nb\r\n",
        "a\rb\n",
        "a\r",
        "\r\n",
        "\r",
        "a\n\r\nb\r",
        "x\r\r\ny",
        "één\ntwee\r\n\ndrie",
    ] {
        let expected: Vec<String> = text.lines().map(|l| l.to_string()).collect();
        assert_eq!(split_lines(text), expected, "{:?}", text);
    }
}

#[test]
fn no_line_is_lost_or_repeated() {
    let parser = LogParser::new();
    for text in [
        "",
        "one\n",
        "free1\nfree2\n[t] [WARN] w\n",
        "[t1] [INFO] a\nx\n[t2] [ERROR] b\n",
        "[a] [INFO] 1\n\n\n[b] [INFO] 2\ntail without feed",
        "x\r\n[a] [DEBUG] y\r\nz\r",
    ] {
        let entries = parser.parse(text);
        assert_eq!(all_lines(&entries), split_lines(text), "{:?}", text);
        assert!(entries.iter().all(|e| !e.lines.is_empty()));
    }
}

#[test]
fn a_text_parsed_in_two_parts_splits_the_entry_at_the_cut() {
    let parser = LogParser::new();
    let first = "[t1] [INFO] a\nx\n";
    let second = "y\nz\n[t2] [WARN] b\nc\n";
    let whole = parser.parse(&format!("{}{}", first, second));
    assert_eq!(whole.len(), 2);
    assert_eq!(lines_of(&whole[0]), vec!["[t1] [INFO] a", "x", "y", "z"]);
    assert_eq!(lines_of(&whole[1]), vec!["[t2] [WARN] b", "c"]);

    let mut parts = parser.parse(first);
    parts.extend(parser.parse(second));
    assert_eq!(parts.len(), 4);
    assert_eq!(lines_of(&parts[0]), vec!["[t1] [INFO] a", "x"]);
    assert_eq!(parts[0].level, LogLevel::Info);
    assert_eq!(lines_of(&parts[1]), vec!["y"]);
    assert_eq!(parts[1].level, LogLevel::Debug);
    assert_eq!(parts[1]._message, "y");
    assert_eq!(lines_of(&parts[2]), vec!["z"]);
    assert_eq!(parts[2].level, LogLevel::Debug);
    assert_eq!(lines_of(&parts[3]), vec!["[t2] [WARN] b", "c"]);
    assert_eq!(all_lines(&parts), all_lines(&whole));
}

#[test]
fn a_cut_before_a_header_changes_nothing() {
    let parser = LogParser::new();
    let first = "free\n[t1] [INFO] a\nx\n";
    let second = "[t2] [ERROR] b\ny\n";
    let whole = parser.parse(&format!("{}{}", first, second));
    let mut parts = parser.parse(first);
    parts.extend(parser.parse(second));
    assert_eq!(parts.len(), whole.len());
    for (p, w) in parts.iter().zip(whole.iter()) {
        assert_eq!(p._timestamp, w._timestamp);
        assert_eq!(p.level, w.level);
        assert_eq!(p._message, w._message);
        assert_eq!(p.lines, w.lines);
    }
}

#[test]
fn a_cut_inside_a_line_tears_that_line_in_two() {
    let parser = LogParser::new();
    let first = "[t1] [INFO] a\n[t2] [WA";
    let second = "RN] b\nc\n";
    let whole = parser.parse(&format!("{}{}", first, second));
    assert_eq!(whole.len(), 2);
    assert_eq!(lines_of(&whole[1]), vec!["[t2] [WARN] b", "c"]);

    let head = parser.parse(first);
    assert_eq!(head.len(), 1);
    assert_eq!(lines_of(&head[0]), vec!["[t1] [INFO] a", "[t2] [WA"]);
    let tail = parser.parse(second);
    assert_eq!(tail.len(), 2);
    assert_eq!(lines_of(&tail[0]), vec!["RN] b"]);
    assert_eq!(tail[0].level, LogLevel::Debug);
    assert_eq!(lines_of(&tail[1]), vec!["c"]);
    assert_eq!(tail[1].level, LogLevel::Debug);
}

#[test]
fn entries_before_the_cut_are_those_of_the_whole_text() {
    let parser = LogParser::new();
    let text = "free\n[t1] [INFO] a\nx\r\n[t2] [ERROR] b\ny\n[t3] [DEBUG] c";
    let whole = parser.parse(text);
    let cuts: Vec<usize> = text.char_indices().map(|(i, _)| i).collect();
    for cut in cuts {
        let head = parser.parse(&text[..cut]);
        assert!(head.len() <= whole.len());
        for i in 0..head.len().saturating_sub(1) {
            assert_eq!(head[i]._timestamp, whole[i]._timestamp, "cut at {}", cut);
            assert_eq!(head[i].level, whole[i].level, "cut at {}", cut);
            assert_eq!(head[i]._message, whole[i]._message, "cut at {}", cut);
            assert_eq!(head[i].lines, whole[i].lines, "cut at {}", cut);
        }
    }
}
