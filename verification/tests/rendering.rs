use justlogfox::render::render_line;
use justlogfox::{LogLevel, LogMessage, Logger, RecordingSink};

fn plain_message(namespace: &str, level: LogLevel, text: &str) -> LogMessage {
    LogMessage {
        namespace: namespace.to_string(),
        level,
        message: text.to_string(),
        filename: None,
    }
}

#[test]
fn level_tags_are_fixed_width() {
    assert_eq!(LogLevel::Error.tag(), "ERRR");
    assert_eq!(LogLevel::Warn.tag(), "WARN");
    assert_eq!(LogLevel::Info.tag(), "INFO");
    assert_eq!(LogLevel::Debug.tag(), "DBUG");
    assert_eq!(LogLevel::Trace.tag(), "TRCE");
}

#[test]
fn renders_plain_line() {
    let msg = plain_message("ns", LogLevel::Info, "hello");
    assert_eq!(render_line("", &msg), "[ns] INFO hello");
}

#[test]
fn renders_time_segment_in_front() {
    let msg = plain_message("ns", LogLevel::Warn, "x");
    assert_eq!(render_line("12:00 ", &msg), "12:00 [ns] WARN x");
}

#[test]
fn indents_continuation_lines_under_header() {
    let msg = plain_message("ab", LogLevel::Info, "l1\nl2");
    // header is "[ab] INFO", nine characters; continuation lines start after
    // a newline and ten spaces, aligned under the first character of "l1"
    assert_eq!(render_line("", &msg), "[ab] INFO l1\n          l2");
}

#[test]
fn wraps_namespace_in_link_when_call_site_known() {
    let msg = LogMessage {
        namespace: "n".to_string(),
        level: LogLevel::Info,
        message: "m".to_string(),
        filename: Some("f.rs".to_string()),
    };
    assert_eq!(
        render_line("", &msg),
        "\x1b]8;id=hi;vscode://file/f.rs\x1b\\[n]\x1b]8;;\x1b\\ INFO m"
    );
}

#[test]
fn dispatch_returns_rendered_line() {
    let mut logger: Logger<RecordingSink> = Logger::new();
    let msg = plain_message("ns", LogLevel::Info, "hi");
    let line = logger.dispatch(&msg);
    assert_eq!(line.unwrap(), "[ns] INFO hi");
}

#[test]
fn dispatch_returns_no_line_when_stdout_disabled() {
    let mut logger: Logger<RecordingSink> = Logger::new();
    logger.stdout = false;
    let msg = plain_message("ns", LogLevel::Info, "hi");
    assert!(logger.dispatch(&msg).is_none());
}

#[test]
fn dispatch_returns_no_line_for_filtered_message() {
    let mut logger: Logger<RecordingSink> = Logger::new();
    logger.set_log_level(LogLevel::Error);
    let msg = plain_message("ns", LogLevel::Debug, "hi");
    assert!(logger.dispatch(&msg).is_none());
}

#[test]
fn configured_time_format_reaches_the_line() {
    let mut logger: Logger<RecordingSink> = Logger::new();
    // a format string without specifiers renders as itself, so the line is
    // predictable: the formatted time and a separating space come first
    logger.set_log_time_format(Some("t"));
    let msg = plain_message("ns", LogLevel::Info, "hi");
    let line = logger.dispatch(&msg);
    assert_eq!(line.unwrap(), "t [ns] INFO hi");
}
