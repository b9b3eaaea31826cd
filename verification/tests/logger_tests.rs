use secluso_core::logger::{LogLevel, SendToDartLogger};

#[test]
fn installing_the_sink_reports_overrides() {
    let mut logger = SendToDartLogger::new(LogLevel::Trace);
    assert!(!logger.sink_installed);
    assert!(!logger.set_stream_sink());
    assert!(logger.set_stream_sink());
    assert_eq!(logger.level, LogLevel::Trace);
}

#[test]
fn filter_admits_levels_up_to_its_own() {
    let logger = SendToDartLogger::new(LogLevel::Info);
    assert!(logger.enabled(LogLevel::Error, "app"));
    assert!(logger.enabled(LogLevel::Warn, "app"));
    assert!(logger.enabled(LogLevel::Info, "app"));
    assert!(!logger.enabled(LogLevel::Debug, "app"));
    assert!(!logger.enabled(LogLevel::Trace, "app"));
    let verbose = SendToDartLogger::new(LogLevel::Trace);
    assert!(verbose.enabled(LogLevel::Trace, "app"));
}

#[test]
fn engine_records_are_never_forwarded() {
    let logger = SendToDartLogger::new(LogLevel::Trace);
    assert!(!logger.enabled(LogLevel::Error, "openmls"));
    assert!(!logger.enabled(LogLevel::Error, "openmls::group"));
    assert!(logger.enabled(LogLevel::Error, "openml"));
    assert!(logger.enabled(LogLevel::Error, "ropenmls"));
}

#[test]
fn entries_carry_the_level_codes() {
    let e = SendToDartLogger::record_to_entry(
        1712345678000,
        LogLevel::Warn,
        "core.rs".to_string(),
        "low battery".to_string(),
    );
    assert_eq!(e.time_millis, 1712345678000);
    assert_eq!(e.level, 3);
    assert_eq!(e.tag, "core.rs");
    assert_eq!(e.msg, "low battery");
    assert_eq!(SendToDartLogger::record_to_entry(0, LogLevel::Trace, String::new(), String::new()).level, 0);
    assert_eq!(SendToDartLogger::record_to_entry(0, LogLevel::Error, String::new(), String::new()).level, 4);
}
