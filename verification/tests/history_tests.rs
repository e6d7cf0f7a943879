use codex_shell::history::{clock_text, history_line, utc_clock_text, ShellLog, MAX_HISTORY};

#[test]
fn history_line_is_stamped_and_trimmed() {
    assert_eq!(history_line(1700000000, "  設定を保存しました \n"), "[1700000000] 設定を保存しました");
    assert_eq!(history_line(0, ""), "[0] ");
}

#[test]
fn history_keeps_the_most_recent_entries() {
    let mut log = ShellLog::new();
    for i in 0..(MAX_HISTORY as u64 + 5) {
        log.push_history_at(i, &format!("m{i}"));
        assert!(log.history.len() <= MAX_HISTORY);
        assert_eq!(log.history.last().unwrap(), &format!("[{i}] m{i}"));
    }
    assert_eq!(log.history.len(), MAX_HISTORY);
    assert_eq!(log.history[0], "[5] m5");
}

#[test]
fn push_history_uses_the_clock_and_keeps_the_status() {
    let mut log = ShellLog::new();
    log.update_status("状態".to_string());
    log.push_history(" hello ");
    assert_eq!(log.status_message, "状態");
    assert_eq!(log.history.len(), 1);
    let entry = &log.history[0];
    assert!(entry.starts_with('['));
    assert!(entry.ends_with("] hello"));
    let secs = &entry[1..entry.len() - "] hello".len()];
    assert!(secs.parse::<u64>().is_ok());
}

#[test]
fn clock_texts_are_zero_padded() {
    assert_eq!(clock_text(0, 0), "00:00");
    assert_eq!(clock_text(9, 5), "09:05");
    assert_eq!(clock_text(23, 59), "23:59");
    assert_eq!(utc_clock_text(0), "00:00");
    assert_eq!(utc_clock_text(25 * 3600 + 61), "01:01");
    assert_eq!(utc_clock_text(86399), "23:59");
}
