use log_viewer::frame::{level_tone, scrolled_text, Frame, Marker, Tone, SIGN_TONE};
use log_viewer::level::LogLevel;
use log_viewer::log_parser::LogParser;
use log_viewer::ui::{UIEvent, UI};
use log_viewer::viewer::LogViewer;

const THREE: &str = "[t1] [INFO] one\n[t2] [ERROR] two\n  at a\n  at b\n[t3] [WARN] three\nlast\n";

fn texts(frame: &Frame) -> Vec<&str> {
    frame.log_rows.iter().map(|r| r.text.as_str()).collect()
}

fn markers(frame: &Frame) -> Vec<Marker> {
    frame.log_rows.iter().map(|r| r.marker).collect()
}

#[test]
fn a_collapsed_entry_shows_its_first_line() {
    let entries = LogParser::new().parse(THREE);
    let ui = UI::new();
    let frame = ui.draw(&vec!["a.log".to_string()], &entries, true);
    assert_eq!(texts(&frame), vec!["[t1] [INFO] one", "[t2] [ERROR] two", "[t3] [WARN] three"]);
    assert_eq!(markers(&frame), vec![Marker::Plain, Marker::Collapsed, Marker::Collapsed]);
    let levels: Vec<LogLevel> = frame.log_rows.iter().map(|r| r.level).collect();
    assert_eq!(levels, vec![LogLevel::Info, LogLevel::Error, LogLevel::Warn]);
    assert_eq!(frame.log_selected, None);
    assert_eq!(frame.file_selected, None);
    assert!(frame.files_focused);
}

#[test]
fn an_expanded_entry_shows_all_its_lines() {
    let entries = LogParser::new().parse(THREE);
    let mut ui = UI::new();
    ui.toggle_expand(1);
    ui.toggle_expand(0);
    let frame = ui.draw(&Vec::new(), &entries, false);
    assert_eq!(
        texts(&frame),
        vec!["[t1] [INFO] one", "[t2] [ERROR] two", "  at a", "  at b", "[t3] [WARN] three"]
    );
    assert_eq!(
        markers(&frame),
        vec![Marker::Plain, Marker::Expanded, Marker::Plain, Marker::Plain, Marker::Collapsed]
    );
    let levels: Vec<LogLevel> = frame.log_rows.iter().map(|r| r.level).collect();
    assert_eq!(
        levels,
        vec![LogLevel::Info, LogLevel::Error, LogLevel::Error, LogLevel::Error, LogLevel::Warn]
    );
    assert!(!frame.files_focused);
}

#[test]
fn rows_are_cut_at_the_scroll_offset() {
    let entries = LogParser::new().parse("[t] [INFO] héllo\nab\n\n");
    let mut ui = UI::new();
    ui.toggle_expand(0);
    ui.scroll_log_right();
    let frame = ui.draw(&Vec::new(), &entries, false);
    assert_eq!(texts(&frame), vec!["[INFO] héllo", "", ""]);
    ui.scroll_log_right();
    ui.scroll_log_right();
    let frame = ui.draw(&Vec::new(), &entries, false);
    assert_eq!(texts(&frame), vec!["éllo", "", ""]);
    assert_eq!(markers(&frame), vec![Marker::Expanded, Marker::Plain, Marker::Plain]);
}

#[test]
fn text_is_cut_by_characters() {
    let line = "aé😀z".to_string();
    assert_eq!(scrolled_text(&line, 0), "aé😀z");
    assert_eq!(scrolled_text(&line, 1), "é😀z");
    assert_eq!(scrolled_text(&line, 2), "😀z");
    assert_eq!(scrolled_text(&line, 3), "z");
    assert_eq!(scrolled_text(&line, 4), "");
    assert_eq!(scrolled_text(&line, 5), "");
    assert_eq!(scrolled_text(&line, usize::MAX), "");
    assert_eq!(scrolled_text(&String::new(), 0), "");
}

#[test]
fn the_selected_file_stands_out_while_the_log_pane_has_the_focus() {
    let names = vec!["a.log".to_string(), "b.log".to_string(), "c.log".to_string()];
    let mut ui = UI::new();
    ui.file_list_state.select(Some(1));
    let frame = ui.draw(&names, &Vec::new(), false);
    let shown: Vec<(&str, bool)> =
        frame.file_rows.iter().map(|r| (r.name.as_str(), r.emphasized)).collect();
    assert_eq!(shown, vec![("a.log", false), ("b.log", true), ("c.log", false)]);
    assert_eq!(frame.file_selected, Some(1));
    let frame = ui.draw(&names, &Vec::new(), true);
    assert!(frame.file_rows.iter().all(|r| !r.emphasized));
    assert_eq!(frame.file_rows.len(), 3);
    assert!(frame.log_rows.is_empty());
}

#[test]
fn the_viewer_lays_out_what_it_holds() {
    let mut viewer = LogViewer::new(vec!["/logs/a.log".to_string(), "/logs/b.log".to_string()]);
    viewer.select_first_file();
    viewer.load_log_file("/logs/a.log", THREE, THREE.len() as u64);
    viewer.handle_navigation(UIEvent::SwitchToLogView);
    viewer.handle_navigation(UIEvent::ToggleExpand);
    let frame = viewer.draw(&vec!["a.log".to_string(), "b.log".to_string()]);
    assert_eq!(
        texts(&frame),
        vec!["[t1] [INFO] one", "[t2] [ERROR] two", "[t3] [WARN] three", "last"]
    );
    assert_eq!(
        markers(&frame),
        vec![Marker::Plain, Marker::Collapsed, Marker::Expanded, Marker::Plain]
    );
    assert_eq!(frame.log_selected, Some(2));
    assert_eq!(frame.file_selected, Some(0));
    assert!(!frame.files_focused);
    assert!(frame.file_rows[0].emphasized);
    assert!(!frame.file_rows[1].emphasized);
    assert_eq!(frame.file_rows[1].name, "b.log");
}

#[test]
fn each_level_has_its_tone_and_each_marker_its_sign() {
    assert_eq!(level_tone(LogLevel::Debug), Tone::DarkGray);
    assert_eq!(level_tone(LogLevel::Info), Tone::White);
    assert_eq!(level_tone(LogLevel::Warn), Tone::Yellow);
    assert_eq!(level_tone(LogLevel::Error), Tone::Red);
    assert_eq!(SIGN_TONE, Tone::Cyan);
    assert_eq!(Marker::Plain.sign(), "");
    assert_eq!(Marker::Collapsed.sign(), " \u{25b6}");
    assert_eq!(Marker::Expanded.sign(), " \u{25bc}");
    assert_eq!(Marker::Collapsed.sign(), " ▶");
    assert_eq!(Marker::Expanded.sign(), " ▼");
}
