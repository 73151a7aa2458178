use miller::logger::{event_line, format_event, get_timestamp, lay_out, timestamp_at, LogLevel};

#[test]
fn levels_have_names() {
    assert_eq!(LogLevel::Info.as_str(), "INFO");
    assert_eq!(LogLevel::Warn.as_str(), "WARN");
    assert_eq!(LogLevel::Error.as_str(), "ERROR");
    assert_eq!(LogLevel::Debug.as_str(), "DEBUG");
}

#[test]
fn timestamp_is_second_of_day() {
    assert_eq!(timestamp_at(0), "00:00:00");
    assert_eq!(timestamp_at(3661), "01:01:01");
    assert_eq!(timestamp_at(86399), "23:59:59");
    assert_eq!(timestamp_at(86400), "00:00:00");
    assert_eq!(timestamp_at(1_700_000_000), "22:13:20");
    assert_eq!(timestamp_at(1_700_000_000), timestamp_at(1_700_000_000 + 3 * 86400));
    assert_ne!(timestamp_at(1_700_000_000), timestamp_at(1_700_000_001));
}

#[test]
fn clock_gives_a_time_of_day() {
    let t = get_timestamp();
    assert_eq!(t.len(), 8);
    let parts: Vec<u32> = t.split(':').map(|p| p.parse().unwrap()).collect();
    assert!(parts[0] < 24 && parts[1] < 60 && parts[2] < 60);
}

#[test]
fn log_lines_are_laid_out() {
    assert_eq!(lay_out("t", LogLevel::Warn, "c", "m"), "[t] [WARN] [c] m");
    assert_eq!(
        format_event(3661, LogLevel::Info, "system", "Ready."),
        "[01:01:01] [INFO] [SYSTEM] Ready."
    );
    assert_eq!(
        format_event(0, LogLevel::Error, "straße", ""),
        "[00:00:00] [ERROR] [STRASSE] "
    );
}

#[test]
fn events_happen_now() {
    let line = event_line(LogLevel::Debug, "engine", "x");
    assert!(line.starts_with('['));
    assert!(line.ends_with("] [DEBUG] [ENGINE] x"));
    assert_eq!(line.len(), "[00:00:00] [DEBUG] [ENGINE] x".len());
}
