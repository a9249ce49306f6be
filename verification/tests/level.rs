use log_viewer::level::LogLevel;

#[test]
fn levels_are_read_from_their_tokens() {
    assert_eq!(LogLevel::from_str("DEBUG"), Some(LogLevel::Debug));
    assert_eq!(LogLevel::from_str("INFO"), Some(LogLevel::Info));
    assert_eq!(LogLevel::from_str("WARN"), Some(LogLevel::Warn));
    assert_eq!(LogLevel::from_str("ERROR"), Some(LogLevel::Error));
}

#[test]
fn other_tokens_name_no_level() {
    for token in ["", "debug", "Info", "WARNING", "ERR", "ERRORS", " INFO", "INFO ", "TRACE", "DEBUGG", "NFO"] {
        assert_eq!(LogLevel::from_str(token), None, "{:?}", token);
    }
}

#[test]
fn each_level_has_its_colour() {
    assert_eq!(LogLevel::Debug._color(), "\x1b[90m");
    assert_eq!(LogLevel::Info._color(), "\x1b[37m");
    assert_eq!(LogLevel::Warn._color(), "\x1b[33m");
    assert_eq!(LogLevel::Error._color(), "\x1b[31m");
}
