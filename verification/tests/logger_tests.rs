use fastlogger::clock::{format_line, format_timestamp, Timestamp};
use fastlogger::fs_model::FsModel;
use fastlogger::level::{should_log, LogLevel};
use fastlogger::logger::Logger;
use fastlogger::rotate::rotation_renames;

fn ts() -> Timestamp {
    Timestamp::new(2024, 1, 2, 3, 4, 5)
}

fn logger(max_bytes: u64, backup_count: usize, show_output: bool, level: &str) -> Logger {
    Logger::new(
        "app".to_string(),
        "app.log".to_string(),
        max_bytes,
        backup_count,
        show_output,
        level.to_string(),
    )
}

#[test]
fn parses_known_levels_any_case() {
    assert_eq!(LogLevel::from_str("DEBUG"), LogLevel::Debug);
    assert_eq!(LogLevel::from_str("debug"), LogLevel::Debug);
    assert_eq!(LogLevel::from_str("Info"), LogLevel::Info);
    assert_eq!(LogLevel::from_str("INFO"), LogLevel::Info);
    assert_eq!(LogLevel::from_str("warning"), LogLevel::Warning);
    assert_eq!(LogLevel::from_str("WaRnInG"), LogLevel::Warning);
    assert_eq!(LogLevel::from_str("error"), LogLevel::Error);
    assert_eq!(LogLevel::from_str("ERROR"), LogLevel::Error);
}

#[test]
fn unknown_levels_become_info() {
    assert_eq!(LogLevel::from_str("TRACE"), LogLevel::Info);
    assert_eq!(LogLevel::from_str(""), LogLevel::Info);
    assert_eq!(LogLevel::from_str("warn"), LogLevel::Info);
    assert_eq!(LogLevel::from_str("errors"), LogLevel::Info);
    assert_eq!(LogLevel::from_str("DEBUG "), LogLevel::Info);
}

#[test]
fn filter_follows_severity_order() {
    assert!(should_log(LogLevel::Debug, LogLevel::Debug));
    assert!(!should_log(LogLevel::Debug, LogLevel::Info));
    assert!(should_log(LogLevel::Info, LogLevel::Info));
    assert!(!should_log(LogLevel::Info, LogLevel::Warning));
    assert!(should_log(LogLevel::Warning, LogLevel::Info));
    assert!(should_log(LogLevel::Error, LogLevel::Debug));
    assert!(!should_log(LogLevel::Warning, LogLevel::Error));
}

#[test]
fn timestamp_is_zero_padded() {
    assert_eq!(format_timestamp(&ts()), "2024-01-02 03:04:05");
    let t = Timestamp::new(987, 10, 31, 23, 59, 0);
    assert_eq!(format_timestamp(&t), "0987-10-31 23:59:00");
    let t = Timestamp::new(1, 1, 1, 0, 0, 0);
    assert_eq!(format_timestamp(&t), "0001-01-01 00:00:00");
}

#[test]
fn line_has_fixed_field_format() {
    let line = format_line(&ts(), "INFO", "core", "hello");
    assert_eq!(line, "2024-01-02 03:04:05 | INFO | core | hello\n");
}

#[test]
fn clock_gives_calendar_ranges() {
    let t = Timestamp::now();
    assert!((1..=12).contains(&t.month));
    assert!((1..=31).contains(&t.day));
    assert!(t.hour < 24);
    assert!(t.minute < 60);
    assert!(t.second < 60);
    let s = format_timestamp(&t);
    assert_eq!(s.len(), 19);
}

#[test]
fn below_minimum_writes_nothing() {
    let l = logger(1000, 3, true, "ERROR");
    let mut fs = FsModel::new();
    let echo = l.write_at(&mut fs, &ts(), "INFO", "dropped");
    assert!(echo.is_none());
    assert!(!fs.contains("app.log"));
    // and an existing file does not grow
    let l2 = logger(1000, 3, true, "WARNING");
    let echo = l2.write_at(&mut fs, &ts(), "ERROR", "kept");
    assert!(echo.is_some());
    let before = fs.read("app.log").unwrap();
    let echo = l2.write_at(&mut fs, &ts(), "debug", "dropped");
    assert!(echo.is_none());
    assert_eq!(fs.read("app.log").unwrap(), before);
}

#[test]
fn accepted_write_appends_one_line() {
    let l = logger(1000, 3, false, "INFO");
    let mut fs = FsModel::new();
    l.write_at(&mut fs, &ts(), "INFO", "first");
    assert_eq!(
        fs.read("app.log").unwrap(),
        "2024-01-02 03:04:05 | INFO | app | first\n".as_bytes().to_vec()
    );
    l.write_at(&mut fs, &ts(), "WARNING", "second");
    assert_eq!(
        fs.read("app.log").unwrap(),
        "2024-01-02 03:04:05 | INFO | app | first\n2024-01-02 03:04:05 | WARNING | app | second\n"
            .as_bytes()
            .to_vec()
    );
}

#[test]
fn unknown_level_filters_as_info_prints_verbatim() {
    let l = logger(1000, 3, false, "INFO");
    let mut fs = FsModel::new();
    l.write_at(&mut fs, &ts(), "TRACE", "odd");
    assert_eq!(
        fs.read("app.log").unwrap(),
        "2024-01-02 03:04:05 | TRACE | app | odd\n".as_bytes().to_vec()
    );
    // under a WARNING minimum the same unknown level is suppressed
    let strict = logger(1000, 3, false, "WARNING");
    let mut fs2 = FsModel::new();
    strict.write_at(&mut fs2, &ts(), "TRACE", "odd");
    assert!(!fs2.contains("app.log"));
}

#[test]
fn unknown_configured_level_becomes_info() {
    let l = logger(1000, 3, false, "VERBOSE");
    let mut fs = FsModel::new();
    l.write_at(&mut fs, &ts(), "INFO", "kept");
    assert!(fs.contains("app.log"));
    let mut fs2 = FsModel::new();
    l.write_at(&mut fs2, &ts(), "DEBUG", "dropped");
    assert!(!fs2.contains("app.log"));
}

#[test]
fn sub_threshold_writes_never_rotate() {
    let l = logger(100000, 3, false, "INFO");
    let mut fs = FsModel::new();
    for _ in 0..20 {
        l.write_at(&mut fs, &ts(), "INFO", "steady");
    }
    assert!(fs.contains("app.log"));
    assert!(!fs.contains("app.log.1"));
    assert!(!fs.contains("app.log.2"));
    assert!(!fs.contains("app.log.3"));
}

#[test]
fn rotation_moves_file_to_first_backup() {
    let l = logger(1, 3, false, "INFO");
    let mut fs = FsModel::new();
    l.write_at(&mut fs, &ts(), "INFO", "one");
    let first = fs.read("app.log").unwrap();
    // the file now meets the threshold, so this write rotates first
    l.write_at(&mut fs, &ts(), "INFO", "two");
    assert_eq!(fs.read("app.log.1").unwrap(), first);
    assert!(!fs.contains("app.log.2"));
    assert!(!fs.contains("app.log.3"));
    assert_eq!(
        fs.read("app.log").unwrap(),
        "2024-01-02 03:04:05 | INFO | app | two\n".as_bytes().to_vec()
    );
    // a second rotation shifts the old backup up one slot
    let second = fs.read("app.log").unwrap();
    l.write_at(&mut fs, &ts(), "INFO", "three");
    assert_eq!(fs.read("app.log.2").unwrap(), first);
    assert_eq!(fs.read("app.log.1").unwrap(), second);
    assert!(!fs.contains("app.log.3"));
}

#[test]
fn backup_chain_is_bounded() {
    let l = logger(1, 2, false, "INFO");
    let mut fs = FsModel::new();
    l.write_at(&mut fs, &ts(), "INFO", "m1");
    let l1 = fs.read("app.log").unwrap();
    l.write_at(&mut fs, &ts(), "INFO", "m2");
    let l2 = fs.read("app.log").unwrap();
    l.write_at(&mut fs, &ts(), "INFO", "m3");
    let l3 = fs.read("app.log").unwrap();
    // chain is full: app.log.2 holds the oldest line
    assert_eq!(fs.read("app.log.2").unwrap(), l1);
    assert_eq!(fs.read("app.log.1").unwrap(), l2);
    // the third rotation pushes the oldest line out of existence
    l.write_at(&mut fs, &ts(), "INFO", "m4");
    assert!(!fs.contains("app.log.3"));
    assert_eq!(fs.read("app.log.2").unwrap(), l2);
    assert_eq!(fs.read("app.log.1").unwrap(), l3);
    for content in [
        fs.read("app.log").unwrap(),
        fs.read("app.log.1").unwrap(),
        fs.read("app.log.2").unwrap(),
    ] {
        assert_ne!(content, l1);
    }
}

#[test]
fn threshold_scenario() {
    // maxBytes = 100, backupCount = 2, minimum level INFO, 80-char lines:
    // the size check runs before each write, so the second write sees 80 and
    // does not rotate; the third sees 160 and does.
    let l = logger(100, 2, false, "INFO");
    let mut fs = FsModel::new();
    let msg1 = "aaaaaaaaaaaaaaaaaaaaaaaaaaaaaaaaaaaaaaaaaaaa"; // 44 chars
    let msg2 = "bbbbbbbbbbbbbbbbbbbbbbbbbbbbbbbbbbbbbbbbbbbb";
    let msg3 = "cccccccccccccccccccccccccccccccccccccccccccc";
    l.write_at(&mut fs, &ts(), "INFO", msg1);
    let after_one = fs.read("app.log").unwrap();
    assert_eq!(after_one.len(), 80);
    assert!(!fs.contains("app.log.1"));
    l.write_at(&mut fs, &ts(), "INFO", msg2);
    let after_two = fs.read("app.log").unwrap();
    assert_eq!(after_two.len(), 160);
    assert!(!fs.contains("app.log.1"));
    l.write_at(&mut fs, &ts(), "INFO", msg3);
    assert_eq!(fs.read("app.log.1").unwrap(), after_two);
    let active = String::from_utf8(fs.read("app.log").unwrap()).unwrap();
    assert_eq!(active.len(), 80);
    assert!(active.contains(msg3));
}

#[test]
fn zero_threshold_rotates_every_write() {
    let l = logger(0, 2, false, "INFO");
    let mut fs = FsModel::new();
    l.write_at(&mut fs, &ts(), "INFO", "m1");
    assert!(!fs.contains("app.log.1"));
    let l1 = fs.read("app.log").unwrap();
    l.write_at(&mut fs, &ts(), "INFO", "m2");
    assert_eq!(fs.read("app.log.1").unwrap(), l1);
}

#[test]
fn echo_follows_show_output() {
    let quiet = logger(1000, 2, false, "INFO");
    let mut fs = FsModel::new();
    assert!(quiet.write_at(&mut fs, &ts(), "INFO", "x").is_none());
    assert!(quiet.write_at(&mut fs, &ts(), "ERROR", "y").is_none());
    assert!(quiet.write_at(&mut fs, &ts(), "DEBUG", "z").is_none());
    let loud = logger(1000, 2, true, "INFO");
    let echo = loud.write_at(&mut fs, &ts(), "INFO", "shown").unwrap();
    assert_eq!(echo, "2024-01-02 03:04:05 | INFO | app | shown\n");
}

#[test]
fn shorthands_fix_the_level() {
    let l = logger(1000, 2, false, "DEBUG");
    let mut fs = FsModel::new();
    l.debug(&mut fs, "a");
    l.info(&mut fs, "b");
    l.warning(&mut fs, "c");
    l.error(&mut fs, "d");
    let content = String::from_utf8(fs.read("app.log").unwrap()).unwrap();
    let lines: Vec<&str> = content.lines().collect();
    assert_eq!(lines.len(), 4);
    assert!(lines[0].contains(" | DEBUG | app | a"));
    assert!(lines[1].contains(" | INFO | app | b"));
    assert!(lines[2].contains(" | WARNING | app | c"));
    assert!(lines[3].contains(" | ERROR | app | d"));
}

#[test]
fn rename_list_matches_rotation_order() {
    let ops = rotation_renames("log", 3);
    let got: Vec<(String, String)> = ops;
    assert_eq!(
        got,
        vec![
            ("log.2".to_string(), "log.3".to_string()),
            ("log.1".to_string(), "log.2".to_string()),
            ("log".to_string(), "log.1".to_string()),
        ]
    );
    let ops = rotation_renames("log", 0);
    assert_eq!(ops, vec![("log".to_string(), "log.1".to_string())]);
    let ops = rotation_renames("log", 12);
    assert_eq!(ops.len(), 12);
    assert_eq!(ops[0], ("log.11".to_string(), "log.12".to_string()));
}

#[test]
fn model_rename_and_append_semantics() {
    let mut fs = FsModel::new();
    fs.append_to("a", "one");
    fs.append_to("a", " two");
    assert_eq!(fs.read("a").unwrap(), "one two".as_bytes().to_vec());
    fs.append_to("b", "bee");
    fs.rename("missing", "c");
    assert!(!fs.contains("c"));
    assert_eq!(fs.file_len("a"), Some(7));
    assert_eq!(fs.file_len("missing"), None);
    fs.rename("a", "b"); // overwrites b
    assert!(!fs.contains("a"));
    assert_eq!(fs.read("b").unwrap(), "one two".as_bytes().to_vec());
}

#[test]
fn constructor_keeps_configuration() {
    let l = Logger::new(
        "svc".to_string(),
        "svc.log".to_string(),
        42,
        7,
        true,
        "warning".to_string(),
    );
    assert_eq!(l.name, "svc");
    assert_eq!(l.path, "svc.log");
    assert_eq!(l.max_bytes, 42);
    assert_eq!(l.backup_count, 7);
    assert!(l.show_output);
    assert_eq!(l.level, LogLevel::Warning);
}
