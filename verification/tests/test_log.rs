use ddb::test_log::{LogLevel, Logger};

fn make_logger(level: LogLevel) -> Logger {
    Logger::new(level)
}

#[test]
fn test_log_level_filtering() {
    let mut logger = make_logger(LogLevel::Info);
    logger.error("test", "error msg".into());
    logger.info("test", "info msg".into());
    logger.debug("test", "debug msg".into());
    let entries = logger.entries();
    assert_eq!(entries.len(), 2);
    assert_eq!(entries[0].level, "error");
    assert_eq!(entries[1].level, "info");
}

#[test]
fn test_http_log_entry() {
    let mut logger = make_logger(LogLevel::Info);
    logger.http("http://localhost:9876/health", 200, 42);
    let entries = logger.entries();
    assert_eq!(entries.len(), 1);
    assert!(entries[0].message.contains("200"));
    assert!(entries[0].message.contains("42ms"));
    assert_eq!(entries[0].category, "http");
}

#[test]
fn test_adb_log_entry() {
    let mut logger = make_logger(LogLevel::Info);
    logger.adb(&["shell", "pm", "list"], 0, 150);
    let entries = logger.entries();
    assert_eq!(entries.len(), 1);
    assert!(entries[0].message.contains("ok"));
    assert!(entries[0].message.contains("150ms"));
}

#[test]
fn test_error_level_filters_info() {
    let mut logger = make_logger(LogLevel::Error);
    logger.error("test", "visible".into());
    logger.info("test", "hidden".into());
    assert_eq!(logger.entries().len(), 1);
}

#[test]
fn log_line_layout() {
    let mut logger = Logger::new_at(LogLevel::Debug, 1_000);
    let line = logger.log_at(1_042, LogLevel::Error, "adb", "boom".to_string());
    assert_eq!(line.as_deref(), Some("[    42ms] ERR [adb] boom"));
    let info = logger.log_at(2_000, LogLevel::Info, "step", "go".to_string());
    assert_eq!(info.as_deref(), Some("[  1000ms]     [step] go"));
    let dbg = logger.log_at(1_234_567_000, LogLevel::Debug, "x", "y".to_string());
    assert_eq!(dbg.as_deref(), Some("[1234566000ms] DBG [x] y"));
    assert_eq!(logger.entries()[0].elapsed_ms, 42);
    assert_eq!(logger.entries()[2].level, "debug");
}

#[test]
fn dropped_records_return_no_line() {
    let mut logger = Logger::new_at(LogLevel::Error, 0);
    assert!(logger.log_at(5, LogLevel::Debug, "x", "y".to_string()).is_none());
    assert!(logger.entries().is_empty());
}

#[test]
fn message_formats() {
    let mut logger = Logger::new(LogLevel::Debug);
    logger.http("http://h/x", 404, 7);
    logger.adb(&["install", "a.apk"], 1, 9);
    logger.step_start(3, "tap login");
    logger.step_end(3, "tap login", 120, true);
    logger.step_end(4, "scroll", 5, false);
    logger.setup("launch", 800);
    let e = logger.entries();
    assert_eq!(e[0].message, "http://h/x → 404 (7ms)");
    assert_eq!(e[1].message, "adb install a.apk → exit 1 (9ms)");
    assert_eq!(e[1].level, "error");
    assert_eq!(e[2].message, "[3] START tap login");
    assert_eq!(e[3].message, "[3] PASS tap login (120ms)");
    assert_eq!(e[4].message, "[4] FAIL scroll (5ms)");
    assert_eq!(e[5].message, "launch (800ms)");
    assert_eq!(e[5].category, "setup");
}

#[test]
fn http_detail_keeps_the_first_500_bytes_at_debug() {
    let mut logger = Logger::new(LogLevel::Debug);
    let body = "a".repeat(600);
    let lines = logger.http_detail("u", 200, 1, &body);
    assert_eq!(lines.len(), 2);
    let e = logger.entries();
    assert_eq!(e.len(), 2);
    assert_eq!(e[1].message, format!("response: {}", "a".repeat(500)));
    let mut quiet = Logger::new(LogLevel::Info);
    quiet.http_detail("u", 200, 1, "short");
    assert_eq!(quiet.entries().len(), 1);
}

#[test]
fn log_level_from_env_value() {
    assert_eq!(LogLevel::from_env(Some("debug")), LogLevel::Debug);
    assert_eq!(LogLevel::from_env(Some("info")), LogLevel::Info);
    assert_eq!(LogLevel::from_env(Some("verbose")), LogLevel::Error);
    assert_eq!(LogLevel::from_env(None), LogLevel::Error);
}
