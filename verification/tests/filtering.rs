use justlogfox::{LogLevel, Logger, RecordingSink};

fn logger_with_sink() -> Logger<RecordingSink> {
    let mut logger: Logger<RecordingSink> = Logger::new();
    logger.add_logger(RecordingSink::new());
    logger
}

#[test]
fn excluded_prefix_drops_message() {
    let mut logger = logger_with_sink();
    logger.exclude_namespace(vec!["a".to_string(), "b".to_string()]);

    logger.log("a::b::c", LogLevel::Error, "dropped", None);
    assert!(logger.custom_sinks[0].records.is_empty());

    logger.log("a::b", LogLevel::Error, "dropped too", None);
    assert!(logger.custom_sinks[0].records.is_empty());
}

#[test]
fn exclusion_matches_whole_segments_not_substrings() {
    let mut logger = logger_with_sink();
    logger.exclude_namespace(vec!["a".to_string(), "b".to_string()]);

    logger.log("a::bc", LogLevel::Info, "delivered", None);
    assert_eq!(logger.custom_sinks[0].records.len(), 1);

    logger.log("ax::b", LogLevel::Info, "delivered", None);
    assert_eq!(logger.custom_sinks[0].records.len(), 2);
}

#[test]
fn exclusion_ignores_severity() {
    let mut logger = logger_with_sink();
    logger.set_log_level(LogLevel::Trace);
    logger.exclude_namespace(vec!["noisy".to_string()]);

    logger.log("noisy", LogLevel::Error, "still dropped", None);
    assert!(logger.custom_sinks[0].records.is_empty());
}

#[test]
fn empty_prefix_excludes_everything() {
    let mut logger = logger_with_sink();
    logger.exclude_namespace(vec![]);

    logger.log("anything::at::all", LogLevel::Error, "dropped", None);
    logger.log("", LogLevel::Error, "dropped", None);
    assert!(logger.custom_sinks[0].records.is_empty());
}

#[test]
fn empty_namespace_does_not_match_nonempty_prefix() {
    let mut logger = logger_with_sink();
    logger.exclude_namespace(vec!["a".to_string()]);

    logger.log("", LogLevel::Info, "delivered", None);
    assert_eq!(logger.custom_sinks[0].records.len(), 1);
    assert_eq!(logger.custom_sinks[0].records[0].namespace, "");
}

#[test]
fn severity_filter_is_runtime_mutable() {
    let mut logger = logger_with_sink();

    logger.set_log_level(LogLevel::Warn);
    logger.log("app", LogLevel::Info, "too verbose", None);
    assert_eq!(logger.custom_sinks[0].records.len(), 0);

    logger.log("app", LogLevel::Warn, "passes", None);
    assert_eq!(logger.custom_sinks[0].records.len(), 1);

    logger.set_log_level(LogLevel::Trace);
    logger.log("app", LogLevel::Trace, "passes now", None);
    assert_eq!(logger.custom_sinks[0].records.len(), 2);
}

#[test]
fn error_always_passes_any_filter() {
    let mut logger = logger_with_sink();
    logger.set_log_level(LogLevel::Error);

    logger.log("app", LogLevel::Error, "kept", None);
    assert_eq!(logger.custom_sinks[0].records.len(), 1);

    logger.log("app", LogLevel::Warn, "dropped", None);
    assert_eq!(logger.custom_sinks[0].records.len(), 1);
}
