use nautilus::logger::rotation::MAX_LOG_SIZE;
use nautilus::logger::{setup_logger, FilePathsConfig, GeneralConfig, LoggingConfig, SizeLimitedAppender};

#[test]
fn default_configuration() {
    let config = LoggingConfig::default();
    assert!(config.general.console_output);
    assert_eq!(config.files.info, "./logs/info.log");
    assert_eq!(config.files.error, "./logs/error.log");
    assert_eq!(config.files.debug, "./logs/debug.log");
    assert_eq!(config.files.trace, "./logs/trace.log");
    assert_eq!(
        config.log_files(),
        vec!["./logs/info.log", "./logs/error.log", "./logs/debug.log", "./logs/trace.log"]
    );
}

#[test]
fn setup_takes_the_file_or_the_default() {
    let read = LoggingConfig {
        general: GeneralConfig { console_output: false },
        files: FilePathsConfig {
            info: "i".to_string(),
            error: "e".to_string(),
            debug: "d".to_string(),
            trace: "t".to_string(),
        },
    };
    let config = setup_logger(Some(read));
    assert!(!config.general.console_output);
    assert_eq!(config.log_files(), vec!["i", "e", "d", "t"]);
    let config = setup_logger(None);
    assert!(config.general.console_output);
    assert_eq!(config.files.trace, "./logs/trace.log");
}

#[test]
fn appender_rotates_at_the_size() {
    assert_eq!(MAX_LOG_SIZE, 100 * 1024 * 1024);
    let mut appender = SizeLimitedAppender::new("app.log".to_string(), 10, None);
    assert_eq!(appender.path(), "app.log");
    assert!(!appender.rotation_due());
    appender.write(9);
    assert!(!appender.rotation_due());
    appender.write(1);
    assert!(appender.rotation_due());
    assert_eq!(appender.rotate_file("20240102030405"), "app.log.20240102030405");
    assert!(!appender.rotation_due());
    appender.write(11);
    assert!(appender.rotation_due());
}

#[test]
fn appender_starts_from_the_size_of_the_file() {
    let appender = SizeLimitedAppender::new("app.log".to_string(), 10, Some(10));
    assert!(appender.rotation_due());
    let mut appender = SizeLimitedAppender::new("app.log".to_string(), u64::MAX, Some(u64::MAX - 1));
    assert!(!appender.rotation_due());
    appender.write(5);
    assert!(appender.rotation_due());
}
