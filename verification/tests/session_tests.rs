use engine_core::session::{compute_session_days, session_days_from_gaps};

const NS: i64 = 1_000_000_000;

#[test]
fn session_days_empty_input() {
    assert!(compute_session_days(&[], 22, 0).is_empty());
}

#[test]
fn session_days_split_at_session_open() {
    // Hourly bars from 20:00 UTC, session opens at 22:00 UTC.
    let ts: Vec<i64> = (0..6).map(|h| (20 + h) * 3600 * NS).collect();
    let days = compute_session_days(&ts, 22, 0);
    assert_eq!(days, vec![0, 0, 1, 1, 1, 1]);
}

#[test]
fn session_days_midnight_open_counts_calendar_days() {
    let ts: Vec<i64> = vec![0, 3600 * NS, 86_400 * NS, 2 * 86_400 * NS + 5 * NS];
    assert_eq!(compute_session_days(&ts, 0, 0), vec![0, 0, 1, 2]);
}

#[test]
fn session_days_skip_missing_days() {
    let ts: Vec<i64> = vec![0, 3 * 86_400 * NS];
    assert_eq!(compute_session_days(&ts, 0, 0), vec![0, 3]);
}

#[test]
fn session_days_never_go_back() {
    let ts: Vec<i64> = vec![2 * 86_400 * NS, 0, 3 * 86_400 * NS];
    assert_eq!(compute_session_days(&ts, 0, 0), vec![0, 0, 1]);
}

#[test]
fn session_days_open_with_minutes() {
    // Session opens 14:30 UTC; bars at 14:00, 14:30, 15:00 and next day 14:29.
    let base = 10 * 86_400;
    let ts: Vec<i64> = vec![
        (base + 14 * 3600) * NS,
        (base + 14 * 3600 + 1800) * NS,
        (base + 15 * 3600) * NS,
        (base + 86_400 + 14 * 3600 + 29 * 60) * NS,
        (base + 86_400 + 14 * 3600 + 30 * 60) * NS,
    ];
    assert_eq!(compute_session_days(&ts, 14, 30), vec![0, 1, 1, 1, 2]);
}

#[test]
fn session_days_negative_offset_starts_later_day() {
    // An open two days before midnight puts the first bar in day 2.
    let ts: Vec<i64> = vec![0];
    assert_eq!(compute_session_days(&ts, -48, 0), vec![2]);
}

#[test]
fn session_days_before_epoch() {
    let ts: Vec<i64> = vec![-3600 * NS, 0, 86_400 * NS];
    assert_eq!(compute_session_days(&ts, 0, 0), vec![0, 1, 2]);
}

#[test]
fn gap_days_count_long_gaps() {
    let ts: Vec<i64> = vec![0, 3600 * NS, 30_000 * NS, 30_060 * NS, 30_120 * NS + 1];
    assert_eq!(session_days_from_gaps(&ts, 14_400), vec![0, 0, 1, 1, 1]);
    // A threshold below one minute counts as one minute.
    assert_eq!(session_days_from_gaps(&ts, 0), vec![0, 1, 2, 2, 2]);
}

#[test]
fn gap_days_empty() {
    assert!(session_days_from_gaps(&[], 60).is_empty());
}
