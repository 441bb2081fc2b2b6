use justlogfox::{LogLevel, Logger, RecordingSink};

#[test]
fn custom_sink_gets_info() {
    let mut logger: Logger<RecordingSink> = Logger::new();
    logger.add_logger(RecordingSink::new());
    let message = format!("Hello, world! {} {}", 1, 2);
    logger.log("justlogfox::tests", LogLevel::Error, &message, None);

    let records = &logger.custom_sinks[0].records;
    assert_eq!(records[0].message, "Hello, world! 1 2");
    assert_eq!(records[0].namespace, "justlogfox::tests");
    assert_eq!(records[0].level, LogLevel::Error);
}

#[test]
fn custom_sink_is_called() {
    let mut logger: Logger<RecordingSink> = Logger::new();
    logger.add_logger(RecordingSink::new());
    let message = format!("Hello, world! {} {}", 1, 2);
    logger.log("justlogfox::tests", LogLevel::Info, &message, None);

    assert!(!logger.custom_sinks[0].records.is_empty());
}

#[test]
fn filters_level() {
    let mut logger: Logger<RecordingSink> = Logger::new();
    logger.set_log_level(LogLevel::Warn);
    logger.add_logger(RecordingSink::new());

    logger.log("justlogfox::tests", LogLevel::Info, "info", None);
    assert!(logger.custom_sinks[0].records.is_empty());

    logger.log("justlogfox::tests", LogLevel::Warn, "warn", None);
    assert!(logger.custom_sinks[0].records.len() == 1);

    logger.set_log_level(LogLevel::Trace);
    logger.log("justlogfox::tests", LogLevel::Trace, "trace", None);
    assert!(logger.custom_sinks[0].records.len() == 2);
}

#[test]
fn hundred_callers_deliver_exactly_once_each() {
    const N_CALLERS: usize = 100;

    let mut logger: Logger<RecordingSink> = Logger::new();
    logger.stdout = false;
    logger.add_logger(RecordingSink::new());

    for _ in 0..N_CALLERS {
        logger.log("justlogfox::tests", LogLevel::Info, "Logging a thing", None);
    }

    assert_eq!(logger.custom_sinks[0].records.len(), N_CALLERS);
}

#[test]
fn sinks_fire_in_registration_order_exactly_once() {
    let mut logger: Logger<RecordingSink> = Logger::new();
    logger.add_logger(RecordingSink::new());
    logger.add_logger(RecordingSink::new());
    logger.add_logger(RecordingSink::new());

    logger.log("app", LogLevel::Warn, "one message", None);

    for sink in &logger.custom_sinks {
        assert_eq!(sink.records.len(), 1);
        assert_eq!(sink.records[0].message, "one message");
    }
    let t0 = logger.custom_sinks[0].records[0].timestamp;
    let t1 = logger.custom_sinks[1].records[0].timestamp;
    let t2 = logger.custom_sinks[2].records[0].timestamp;
    assert_eq!(t0, t1);
    assert_eq!(t1, t2);
}

#[test]
fn sink_observes_exact_strings() {
    let mut logger: Logger<RecordingSink> = Logger::new();
    logger.add_logger(RecordingSink::new());

    let namespace = "приложение::модуль";
    let text = "first line\nsecond line\ttabbed";
    logger.log(namespace, LogLevel::Debug, text, Some("src/main.rs:3:7"));

    let records = &logger.custom_sinks[0].records;
    assert_eq!(records.len(), 1);
    assert_eq!(records[0].namespace, namespace);
    assert_eq!(records[0].message, text);
    assert_eq!(records[0].filename.as_deref(), Some("src/main.rs:3:7"));
    assert_eq!(records[0].level, LogLevel::Debug);
}
