use std::path::PathBuf;
use taskflow::logger::{log_file_for, LogEntry, Logger};

fn is_digits(text: &str) -> bool {
    !text.is_empty() && text.chars().all(|c| c.is_ascii_digit())
}

#[test]
fn log_file_name_holds_the_stamp() {
    let file = log_file_for(Some(PathBuf::from("/out")), true, "20240102_030405");
    assert_eq!(file, Some(PathBuf::from("/out/taskflow_20240102_030405.log")));
}

#[test]
fn no_log_file_when_disabled_or_without_directory() {
    assert_eq!(log_file_for(Some(PathBuf::from("/out")), false, "x"), None);
    assert_eq!(log_file_for(None, true, "x"), None);
    assert_eq!(log_file_for(None, false, "x"), None);
}

#[test]
fn new_logger_names_its_file_after_the_time() {
    let logger = Logger::new(Some(PathBuf::from("/out")), true);
    assert!(logger.is_enabled());
    let file = logger.log_file().expect("an enabled logger with a directory has a file");
    assert_eq!(file.parent(), Some(PathBuf::from("/out").as_path()));
    let name = file.file_name().unwrap().to_str().unwrap().to_string();
    assert!(name.starts_with("taskflow_"));
    assert!(name.ends_with(".log"));
    let stamp = &name["taskflow_".len()..name.len() - ".log".len()];
    assert_eq!(stamp.len(), 15);
    assert!(is_digits(&stamp[..8]));
    assert_eq!(&stamp[8..9], "_");
    assert!(is_digits(&stamp[9..]));
}

#[test]
fn disabled_logger_records_nothing() {
    let mut logger = Logger::new(Some(PathBuf::from("/out")), false);
    assert!(!logger.is_enabled());
    assert_eq!(logger.log_file(), None);
    logger.log("hello");
    logger.log_start("a.txt", "s.sh");
    logger.log_success("a.txt");
    logger.log_error("a.txt", "bad");
    assert!(logger.take_pending().is_empty());
}

#[test]
fn logger_without_directory_records_nothing() {
    let mut logger = Logger::new(None, true);
    assert!(logger.is_enabled());
    assert_eq!(logger.log_file(), None);
    logger.log("hello");
    assert!(logger.take_pending().is_empty());
}

#[test]
fn messages_are_worded_by_kind() {
    let mut logger = Logger::new(Some(PathBuf::from("/out")), true);
    let file = logger.log_file().unwrap();
    logger.log_start("a.txt", "/bin/convert.sh");
    logger.log_success("a.txt");
    logger.log_error("b.txt", "bad format");
    logger.log("plain");
    let entries = logger.take_pending();
    let messages: Vec<&str> = entries.iter().map(|entry| entry.message.as_str()).collect();
    assert_eq!(
        messages,
        vec![
            "Starting: a.txt with script: /bin/convert.sh",
            "Success: a.txt",
            "Error: b.txt - bad format",
            "plain",
        ]
    );
    for entry in &entries {
        assert_eq!(entry.file, file);
        assert_eq!(entry.stamp.len(), 19);
        assert_eq!(&entry.stamp[4..5], "-");
        assert_eq!(&entry.stamp[10..11], " ");
        assert_eq!(&entry.stamp[13..14], ":");
    }
}

#[test]
fn take_pending_empties_the_logger() {
    let mut logger = Logger::new(Some(PathBuf::from("/out")), true);
    logger.log("one");
    assert_eq!(logger.take_pending().len(), 1);
    assert!(logger.take_pending().is_empty());
    logger.log("two");
    let entries = logger.take_pending();
    assert_eq!(entries.len(), 1);
    assert_eq!(entries[0].message, "two");
}

#[test]
fn line_is_stamp_in_brackets_then_message() {
    let entry = LogEntry {
        file: PathBuf::from("/out/log"),
        stamp: "2024-01-02 03:04:05".to_string(),
        message: "Success: a.txt".to_string(),
    };
    assert_eq!(entry.line(), "[2024-01-02 03:04:05] Success: a.txt\n");
}

#[test]
fn update_switches_logging_and_keeps_pending_entries() {
    let mut logger = Logger::new(Some(PathBuf::from("/out")), true);
    logger.log("kept");
    logger.update(Some(PathBuf::from("/elsewhere")), false);
    assert!(!logger.is_enabled());
    assert_eq!(logger.log_file(), None);
    logger.log("dropped");
    logger.update(Some(PathBuf::from("/elsewhere")), true);
    let file = logger.log_file().unwrap();
    assert_eq!(file.parent(), Some(PathBuf::from("/elsewhere").as_path()));
    logger.log("again");
    let entries = logger.take_pending();
    let messages: Vec<&str> = entries.iter().map(|entry| entry.message.as_str()).collect();
    assert_eq!(messages, vec!["kept", "again"]);
    assert_eq!(entries[0].file.parent(), Some(PathBuf::from("/out").as_path()));
    assert_eq!(entries[1].file, file);
}

#[test]
fn record_keeps_the_stamp_it_is_given() {
    let mut logger = Logger::new(Some(PathBuf::from("/out")), true);
    assert!(logger.is_active());
    let file = logger.log_file().unwrap();
    logger.record("2024-01-02 03:04:05".to_string(), "first");
    logger.record("2024-01-02 03:04:06".to_string(), "second");
    let entries = logger.take_pending();
    assert_eq!(entries.len(), 2);
    assert_eq!(entries[0].file, file);
    assert_eq!(entries[0].stamp, "2024-01-02 03:04:05");
    assert_eq!(entries[0].message, "first");
    assert_eq!(entries[1].stamp, "2024-01-02 03:04:06");
    assert_eq!(entries[1].message, "second");
    assert_eq!(entries[1].line(), "[2024-01-02 03:04:06] second\n");
}

#[test]
fn record_keeps_nothing_when_the_logger_is_not_active() {
    let mut off = Logger::new(Some(PathBuf::from("/out")), false);
    assert!(!off.is_active());
    off.record("2024-01-02 03:04:05".to_string(), "lost");
    assert!(off.take_pending().is_empty());
    let mut nowhere = Logger::new(None, true);
    assert!(!nowhere.is_active());
    nowhere.record("2024-01-02 03:04:05".to_string(), "lost");
    assert!(nowhere.take_pending().is_empty());
}
