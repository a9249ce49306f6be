use log_viewer::log_parser::{LogLevel, LogParser};
use regex::Regex;

fn level_of(token: &str) -> LogLevel {
    match token {
        "DEBUG" => LogLevel::Debug,
        "INFO" => LogLevel::Info,
        "WARN" => LogLevel::Warn,
        "ERROR" => LogLevel::Error,
        other => panic!("the pattern let {:?} through", other),
    }
}

fn agrees(pattern: &Regex, parser: &LogParser, line: &str) {
    let ours = parser.parse_header(line);
    match pattern.captures(line) {
        Some(caps) => {
            let ours = ours.unwrap_or_else(|| panic!("{:?} is a header", line));
            assert_eq!(ours.timestamp, &caps[1], "{:?}", line);
            assert_eq!(ours.level, level_of(&caps[2]), "{:?}", line);
            assert_eq!(ours.message, &caps[3], "{:?}", line);
        }
        None => assert!(ours.is_none(), "{:?} is no header", line),
    }
}

#[test]
fn the_header_grammar_is_the_regular_expression() {
    let pattern = Regex::new(r"^\[(.*?)\] \[(DEBUG|INFO|WARN|ERROR)\] (.*)").unwrap();
    let parser = LogParser::new();
    for line in [
        "",
        "[",
        "[]",
        "[] [INFO] ",
        "[t] [INFO] a",
        "[t] [DEBUG] a",
        "[t] [WARN] a",
        "[t] [ERROR] a",
        "[t] [ERROR]a",
        "[t] [ERROR]",
        "[t] [ERRO] a",
        "[t] [error] a",
        "[t] [INFO] ",
        "[t] [INFO]  two spaces",
        "[t]  [INFO] a",
        "[t][INFO] a",
        " [t] [INFO] a",
        "x[t] [INFO] a",
        "[a] [INFO] x] [WARN] y",
        "[a] b] [ERROR] m",
        "[a] [b] [c] [WARN] m",
        "[[t]] [INFO] a",
        "[t] [INFO] [u] [DEBUG] b",
        "[] [X] ] [INFO] y",
        "[2024-01-01T10:00:00.123Z] [INFO] started in 3 ms",
        "[t] [INFO] trailing\r",
        "[t\r] [INFO] a",
        "[é ü] [WARN] žluťoučký kůň",
        "[] [DEBUG] [] [DEBUG] [] [DEBUG] ",
        "[] [DEBUG] []",
        "[t] [WARNING] a",
        "[t] [INFOS] a",
        "[t] [ INFO] a",
        "[t] [INFO ] a",
        "] [INFO] a",
        "[] [INFO]",
        "[] [ERROR] ] [ERROR] ",
        "[]] [INFO] a",
        "[] ] [INFO] a",
        "plain words",
        "    at frame (file.rs:10)",
        "[t] [INFO] a\nb",
        "[t] [INFO] \n",
        "[t] [INFO] a\n[u] [WARN] b",
        "[t\n] [INFO] a",
        "[\n] [INFO] a",
        "[t] [INFO]\n a",
        "[t]\n [INFO] a",
        "\n[t] [INFO] a",
        "x\n[t] [INFO] a",
        "[a] b\n] [ERROR] m",
        "[a] [DEBUG] \r\n",
    ] {
        agrees(&pattern, &parser, line);
    }
}

#[test]
fn the_header_grammar_is_the_regular_expression_on_built_lines() {
    let pattern = Regex::new(r"^\[(.*?)\] \[(DEBUG|INFO|WARN|ERROR)\] (.*)").unwrap();
    let parser = LogParser::new();
    let pieces = ["[", "]", " ", "] [", "INFO", "WARN", "] ", "x", "\n", "ERROR] "];
    let n = pieces.len();
    let mut count = 0;
    for a in 0..n {
        for b in 0..n {
            for c in 0..n {
                for d in 0..n {
                    let line = format!("{}{}{}{}", pieces[a], pieces[b], pieces[c], pieces[d]);
                    agrees(&pattern, &parser, &line);
                    let line = format!("[{}", line);
                    agrees(&pattern, &parser, &line);
                    count += 2;
                }
            }
        }
    }
    assert_eq!(count, 20000);
}

#[test]
fn whole_texts_parse_as_with_the_regular_expression() {
    let pattern = Regex::new(r"^\[(.*?)\] \[(DEBUG|INFO|WARN|ERROR)\] (.*)").unwrap();
    let parser = LogParser::new();
    let text = "boot\n[1] [INFO] up\n  detail\n[2] [TRACE] no level\n[3] [ERROR] down\n\n[4] [WARN] w";
    let entries = parser.parse(text);
    let mut expected: Vec<(String, LogLevel, String, Vec<String>)> = Vec::new();
    let mut open = false;
    for line in text.lines() {
        if let Some(caps) = pattern.captures(line) {
            expected.push((
                caps[1].to_string(),
                level_of(&caps[2]),
                caps[3].to_string(),
                vec![line.to_string()],
            ));
            open = true;
        } else if open {
            expected.last_mut().unwrap().3.push(line.to_string());
        } else {
            expected.push((String::new(), LogLevel::Debug, line.to_string(), vec![line.to_string()]));
        }
    }
    assert_eq!(entries.len(), expected.len());
    assert_eq!(entries.len(), 4);
    for (entry, (timestamp, level, message, lines)) in entries.iter().zip(expected) {
        assert_eq!(entry._timestamp, timestamp);
        assert_eq!(entry.level, level);
        assert_eq!(entry._message, message);
        assert_eq!(entry.lines, lines);
    }
}
