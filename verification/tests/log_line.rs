use plane_core::log_line::{
    elapsed_label, file_log_line, level_color, level_label, line_text, log_enabled, log_line_segments, LogColor,
    LogLevel, SegmentStyle,
};

#[test]
fn levels_shown_up_to_info() {
    assert!(log_enabled(LogLevel::Error));
    assert!(log_enabled(LogLevel::Warn));
    assert!(log_enabled(LogLevel::Info));
    assert!(!log_enabled(LogLevel::Debug));
    assert!(!log_enabled(LogLevel::Trace));
}

#[test]
fn level_labels_and_colors() {
    assert_eq!(level_label(LogLevel::Warn), "WARN ");
    assert_eq!(level_label(LogLevel::Error), "ERROR");
    assert_eq!(level_label(LogLevel::Info), format!("{:5}", "INFO"));
    assert_eq!(level_color(LogLevel::Error), LogColor::Red);
    assert_eq!(level_color(LogLevel::Warn), LogColor::Yellow);
    assert_eq!(level_color(LogLevel::Info), LogColor::Green);
    assert_eq!(level_color(LogLevel::Debug), LogColor::Blue);
    assert_eq!(level_color(LogLevel::Trace), LogColor::Cyan);
}

#[test]
fn pane_line_layout() {
    let segs = log_line_segments("1.005s", LogLevel::Warn, "gcs::serial", "no radio");
    assert_eq!(line_text(&segs), "[1.005s WARN  gcs::serial ] no radio");
    assert_eq!(segs.len(), 7);
    assert_eq!(segs[0].style, SegmentStyle::Colored(LogColor::DarkGray));
    assert_eq!(segs[2].style, SegmentStyle::Colored(LogColor::Yellow));
    assert_eq!(segs[6].style, SegmentStyle::Plain);
    let segs = log_line_segments("0.000s", LogLevel::Info, "", "hi");
    assert_eq!(line_text(&segs), "[0.000s INFO  ] hi");
}

#[test]
fn file_line_layout() {
    assert_eq!(file_log_line(Some("src/main.rs"), Some(12), "text"), format!("{: >24}:12:  text\n", "src/main.rs"));
    assert_eq!(file_log_line(None, None, "x"), "               <unknown>:0:  x\n");
    let long = "a/very/long/path/to/some/file.rs";
    assert_eq!(file_log_line(Some(long), Some(1), "y"), format!("{long}:1:  y\n"));
    assert_eq!(file_log_line(Some("é"), Some(1), "z"), format!("{: >24}:1:  z\n", "é"));
}

#[test]
fn elapsed_label_layout() {
    assert_eq!(elapsed_label(3, 7), "3.007s");
    assert_eq!(elapsed_label(0, 999), "0.999s");
}
