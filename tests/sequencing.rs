use rune_depths::window::{backfill_windows, last_completed_window, truncate_to_hour, window_key_texts, Window};

#[test]
fn truncates_to_hour_start() {
    assert_eq!(truncate_to_hour(1_700_000_123), 1_699_999_200);
    assert_eq!(truncate_to_hour(1_699_999_200), 1_699_999_200);
    assert_eq!(truncate_to_hour(-1), -3600);
}

#[test]
fn last_completed_window_is_previous_hour() {
    let w = last_completed_window(1_700_000_123);
    assert_eq!(w, Window { start_time: 1_699_995_600, end_time: 1_699_999_200 });
}

#[test]
fn backfill_count_is_ceiling_of_hours() {
    let start = 1_700_000_000;
    assert_eq!(backfill_windows(start, start + 5 * 3600).len(), 5);
    assert_eq!(backfill_windows(start, start + 5 * 3600 + 1).len(), 6);
    assert_eq!(backfill_windows(start, start + 1).len(), 1);
    assert_eq!(backfill_windows(start, start).len(), 0);
    assert_eq!(backfill_windows(start, start - 10).len(), 0);
}

#[test]
fn backfill_windows_are_contiguous_hours() {
    let start = 1_700_000_000;
    let ws = backfill_windows(start, start + 60 * 24 * 3600);
    assert_eq!(ws.len(), 1440);
    assert_eq!(ws[0], last_completed_window(start));
    for w in &ws {
        assert_eq!(w.end_time - w.start_time, 3600);
        assert_eq!(w.start_time % 3600, 0);
    }
    for pair in ws.windows(2) {
        assert_eq!(pair[0].end_time, pair[1].start_time);
        assert!(pair[0].start_time < pair[1].start_time);
    }
}

#[test]
fn window_keys_are_utc_datetimes() {
    let keys = window_key_texts(Window { start_time: 1_699_995_600, end_time: 1_699_999_200 });
    assert_eq!(
        keys,
        Some(("2023-11-14 21:00:00".to_string(), "2023-11-14 22:00:00".to_string()))
    );
}
