use libvpuppr::logger::{log_line, log_threshold, LocalTime, LogLevel, LogStore, Logger, MAX_LOGS};

fn time(year: i32) -> LocalTime {
    LocalTime { year, month: 3, day: 7, hour: 9, minute: 5, second: 0 }
}

#[test]
fn log_line_layout() {
    let l = log_line(LogLevel::Warn, &time(2023), "MeowFace", "socket closed");
    assert_eq!(l, "[Warn] 2023-03-07_09:05:00 MeowFace socket closed");
}

#[test]
fn log_line_years() {
    assert_eq!(log_line(LogLevel::Info, &time(5), "a", "b"), "[Info] 0005-03-07_09:05:00 a b");
    assert_eq!(
        log_line(LogLevel::Error, &time(-12), "a", "b"),
        "[Error] -0012-03-07_09:05:00 a b"
    );
    assert_eq!(
        log_line(LogLevel::Global, &time(12345), "a", ""),
        "[Global] +12345-03-07_09:05:00 a "
    );
    let t = LocalTime { year: 2024, month: 12, day: 31, hour: 23, minute: 59, second: 59 };
    assert_eq!(log_line(LogLevel::Debug, &t, "x", "y"), "[Debug] 2024-12-31_23:59:59 x y");
}

#[test]
fn logger_line_has_name_and_message() {
    let mut logger = Logger::create("Puppet".to_string());
    logger.set_name("VrmPuppet".to_string());
    assert_eq!(logger.name(), "VrmPuppet");
    let l = logger.line(LogLevel::Info, &time(2023), "ready");
    assert_eq!(l, "[Info] 2023-03-07_09:05:00 VrmPuppet ready");
}

#[test]
fn thresholds() {
    assert_eq!(log_threshold(true, true), LogLevel::Error);
    assert_eq!(log_threshold(true, false), LogLevel::Error);
    assert_eq!(log_threshold(false, true), LogLevel::Debug);
    assert_eq!(log_threshold(false, false), LogLevel::Info);
}

#[test]
fn store_hands_back_a_full_batch() {
    let mut s = LogStore::new();
    for i in 0..MAX_LOGS - 1 {
        assert!(s.push(format!("line {i}")).is_none());
    }
    assert_eq!(s.len(), MAX_LOGS - 1);
    let batch = s.push("last".to_string()).unwrap();
    assert_eq!(batch.len(), MAX_LOGS);
    assert_eq!(batch[0], "line 0");
    assert_eq!(batch[MAX_LOGS - 1], "last");
    assert_eq!(s.len(), 0);
    assert!(s.push("again".to_string()).is_none());
}
