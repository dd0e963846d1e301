use nice_trader::logging::{
    default_encoding, default_mode, default_rotation, default_time_format, default_true,
    is_json_like, json_event_head, json_pair, json_text_pair, log_file_name, plain_event_prefix,
    short_file_name, FileRotateConfig, FileWriterConfig, LogConfig, LogEncoding, LogLevel,
    LogMode, LoggerError, LoggerRegistry, RotationRule,
};

fn file_config(mode: LogMode) -> LogConfig {
    LogConfig {
        mode,
        encoding: LogEncoding::Plain,
        time_format: "%Y-%m-%d %H:%M:%S%.3f %Z".to_string(),
        stdout_level: "DEBUG".to_string(),
        file_level: "DEBUG".to_string(),
        is_colored: true,
        print_config: true,
        file_writer: Some(FileWriterConfig {
            directory: "/tmp/logs".to_string(),
            file_name: "test_app.log".to_string(),
            rotate: FileRotateConfig {
                rotation: RotationRule::Never,
                max_size_mb: 10,
                max_backup_count: 1,
                keep_days: 1,
            },
        }),
    }
}

#[test]
fn test_defaults() {
    assert_eq!(default_rotation(), RotationRule::Daily);
    assert_eq!(default_mode(), LogMode::Both);
    assert_eq!(default_encoding(), LogEncoding::Json);
    assert_eq!(default_time_format(), "%Y-%m-%dT%H:%M:%S%.3f %Z");
    assert!(default_true());
    let c = LogConfig::default();
    assert_eq!(c.mode, LogMode::Console);
    assert_eq!(c.encoding, LogEncoding::Plain);
    assert_eq!(c.time_format, "%Y-%m-%d %H:%M:%S%.3f %Z");
    assert_eq!(c.stdout_level, "INFO");
    assert_eq!(c.file_level, "DEBUG");
    assert!(c.is_colored);
    assert!(c.print_config);
    assert!(c.file_writer.is_none());
}

#[test]
fn test_names() {
    assert_eq!(LogMode::Both.as_str(), "both");
    assert_eq!(LogMode::from_name("file"), Some(LogMode::File));
    assert_eq!(LogMode::from_name("File"), None);
    assert_eq!(LogEncoding::from_name("json"), Some(LogEncoding::Json));
    assert_eq!(LogEncoding::Plain.as_str(), "plain");
    assert_eq!(RotationRule::from_name("hourly"), Some(RotationRule::Hourly));
    assert_eq!(RotationRule::Never.as_str(), "never");
    assert_eq!(RotationRule::from_name(""), None);
}

#[test]
fn test_output_plan_both() {
    let plan = file_config(LogMode::Both).output_plan();
    assert_eq!(plan.console_level.as_deref(), Some("DEBUG"));
    let files = plan.files.expect("file outputs");
    assert_eq!(files.directory, "/tmp/logs");
    assert_eq!(files.main_file_name, "test_app.log");
    assert_eq!(files.error_file_name, "error.test_app.log");
    assert_eq!(files.rotation, RotationRule::Never);
    assert_eq!(files.main_level, "DEBUG");
    assert_eq!(files.error_level, "error");
    assert_eq!(plan.encoding, LogEncoding::Plain);
    assert!(plan.is_colored);
}

#[test]
fn test_output_plan_modes() {
    let console = file_config(LogMode::Console).output_plan();
    assert!(console.console_level.is_some());
    assert!(console.files.is_none());
    let file = file_config(LogMode::File).output_plan();
    assert!(file.console_level.is_none());
    assert!(file.files.is_some());
    let mut no_writer = file_config(LogMode::File);
    no_writer.file_writer = None;
    let plan = no_writer.output_plan();
    assert!(plan.console_level.is_none());
    assert!(plan.files.is_none());
}

#[test]
fn test_log_file_name() {
    assert_eq!(log_file_name("", "app.log"), "app.log");
    assert_eq!(log_file_name("error", "app.log"), "error.app.log");
}

#[test]
fn test_second_initialization_fails() {
    let mut registry = LoggerRegistry::new();
    assert_eq!(registry.try_claim(), Ok(()));
    let second = registry.try_claim();
    assert_eq!(second, Err(LoggerError::AlreadyInitialized));
    assert_eq!(LoggerError::AlreadyInitialized.message(), "Logger is already initialized");
}

#[test]
fn test_short_file_name() {
    assert_eq!(short_file_name("src/common/tracing.rs"), "tracing.rs");
    assert_eq!(short_file_name("main.rs"), "main.rs");
    assert_eq!(short_file_name("dir/"), "");
}

#[test]
fn test_plain_prefix() {
    assert_eq!(
        plain_event_prefix("2025-01-01 10:00:00.000 UTC", LogLevel::Info, Some("src/a/b.rs"), Some(42), "app"),
        "2025-01-01 10:00:00.000 UTC  INFO [b.rs:42] "
    );
    assert_eq!(
        plain_event_prefix("T", LogLevel::Error, None, Some(3), "my::target"),
        "T ERROR [my::target] "
    );
    assert_eq!(plain_event_prefix("T", LogLevel::Warn, Some("x.rs"), None, "t"), "T  WARN [t] ");
}

#[test]
fn test_json_head() {
    assert_eq!(
        json_event_head("T", LogLevel::Debug, Some("src/lib.rs"), Some(7)),
        "{\"time\":\"T\",\"level\":\"DEBUG\",\"file_line\":\"lib.rs:7\""
    );
    assert_eq!(
        json_event_head("T", LogLevel::Trace, None, None),
        "{\"time\":\"T\",\"level\":\"TRACE\",\"file_line\":\"unknown:0\""
    );
}

#[test]
fn test_json_pairs() {
    assert_eq!(json_pair(false, "count", "3", false), ",\"count\":3");
    assert_eq!(json_pair(true, "message", "hi", true), "\"message\":\"hi\"");
    assert_eq!(json_text_pair(false, "data", "{\"a\":1}"), ",\"data\":{\"a\":1}");
    assert_eq!(json_text_pair(false, "list", "[1,2]"), ",\"list\":[1,2]");
    assert_eq!(json_text_pair(false, "message", "hello"), ",\"message\":\"hello\"");
    assert!(!is_json_like("{"));
    assert!(!is_json_like(""));
    assert!(is_json_like("{}"));
}

#[test]
fn test_json_field_writer() {
    let mut w = nice_trader::logging::JsonFieldWriter::new(true);
    assert_eq!(w.write_pair("a", "1", false).as_deref(), Some("\"a\":1"));
    assert!(!w.is_first);
    w.record_write(true);
    assert_eq!(w.write_pair("b", "x", true).as_deref(), Some(",\"b\":\"x\""));
    w.record_write(false);
    assert!(w.failed);
    assert_eq!(w.write_pair("c", "y", true), None);
}
