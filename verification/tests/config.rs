use justlogfox::{ensure_init_logger, LogLevel, Logger, RecordingSink};
use owo_colors::CssColors;

#[test]
fn init_builds_defaults_once_and_never_resets() {
    let mut slot: Option<Logger<RecordingSink>> = None;

    ensure_init_logger(&mut slot);
    {
        let logger = slot.as_ref().unwrap();
        assert!(logger.stdout);
        assert!(logger.custom_sinks.is_empty());
        assert_eq!(logger.filter_level, LogLevel::Trace);
        assert!(logger.time_format.is_none());
        assert!(logger.exclude_namespaces.is_empty());
        assert!(logger.crate_colors.is_empty());
        assert!(!logger.logging_logging);
    }

    slot.as_mut().unwrap().set_log_level(LogLevel::Warn);
    ensure_init_logger(&mut slot);
    assert_eq!(slot.as_ref().unwrap().filter_level, LogLevel::Warn);
}

#[test]
fn verbose_verbose_verbose_traces_itself() {
    let mut logger: Logger<RecordingSink> = Logger::new();
    logger.add_logger(RecordingSink::new());

    logger.verbose_verbose_verbose();
    assert_eq!(logger.filter_level, LogLevel::Trace);
    assert!(logger.logging_logging);
    {
        let records = &logger.custom_sinks[0].records;
        assert_eq!(records.len(), 1);
        assert_eq!(records[0].namespace, "justlogfox");
        assert_eq!(records[0].message, "Set filter level: Trace");
        assert_eq!(records[0].level, LogLevel::Trace);
    }

    // the note is itself a Trace message, so a stricter filter drops it
    logger.set_log_level(LogLevel::Info);
    assert_eq!(logger.custom_sinks[0].records.len(), 1);
}

#[test]
fn registration_note_skips_the_new_sink() {
    let mut logger: Logger<RecordingSink> = Logger::new();
    logger.add_logger(RecordingSink::new());
    logger.verbose_verbose_verbose();

    logger.add_logger(RecordingSink::new());

    let first = &logger.custom_sinks[0].records;
    assert_eq!(first.len(), 2);
    assert_eq!(first[1].message, "New sink added");
    assert!(logger.custom_sinks[1].records.is_empty());
}

#[test]
fn self_notes_are_silent_by_default() {
    let mut logger: Logger<RecordingSink> = Logger::new();
    logger.add_logger(RecordingSink::new());
    logger.set_log_level(LogLevel::Trace);
    logger.set_log_time_format(Some("%H"));
    assert!(logger.custom_sinks[0].records.is_empty());
}

#[test]
fn time_format_is_stored_and_cleared() {
    let mut logger: Logger<RecordingSink> = Logger::new();
    logger.set_log_time_format(Some("%H:%M"));
    assert_eq!(logger.time_format.as_deref(), Some("%H:%M"));
    logger.set_log_time_format(None);
    assert!(logger.time_format.is_none());
}

#[test]
fn crate_colors_are_set_and_replaced() {
    let mut logger: Logger<RecordingSink> = Logger::new();
    assert_eq!(logger.crate_color("app"), None);

    logger.set_crate_color("app", CssColors::Orange);
    assert_eq!(logger.crate_color("app"), Some(CssColors::Orange));
    assert_eq!(logger.crate_color("other"), None);

    logger.set_crate_color("app", CssColors::Red);
    assert_eq!(logger.crate_color("app"), Some(CssColors::Red));
    assert_eq!(logger.crate_colors.len(), 1);
}
