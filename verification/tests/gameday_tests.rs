use wuwa_echo_sight::gameday::{
    compute_game_day, parse_event_time, requested_game_day, setting_i64_or, DEFAULT_DAY_BOUNDARY_HOUR,
};

#[test]
fn game_day_respects_4am_boundary() {
    let before_boundary =
        compute_game_day("2026-02-27T03:59:00+08:00", 4).expect("compute_game_day should work");
    let after_boundary =
        compute_game_day("2026-02-27T04:01:00+08:00", 4).expect("compute_game_day should work");

    assert_eq!(before_boundary, "2026-02-26");
    assert_eq!(after_boundary, "2026-02-27");
}

#[test]
fn game_day_crosses_month_and_year() {
    assert_eq!(compute_game_day("2026-03-01T02:00:00+08:00", 4).unwrap(), "2026-02-28");
    assert_eq!(compute_game_day("2024-01-01T00:30:00Z", 4).unwrap(), "2023-12-31");
    assert_eq!(compute_game_day("2024-03-01T03:00:00+00:00", 4).unwrap(), "2024-02-29");
    assert_eq!(compute_game_day("2024-03-01T03:00:00+00:00", 0).unwrap(), "2024-03-01");
}

#[test]
fn rfc3339_time_keeps_fields_and_offset() {
    let t = parse_event_time("2026-02-27T03:59:07+08:00").unwrap();
    assert_eq!(t.local.year, 2026);
    assert_eq!(t.local.month, 2);
    assert_eq!(t.local.day, 27);
    assert_eq!(t.local.hour, 3);
    assert_eq!(t.local.minute, 59);
    assert_eq!(t.local.second, 7);
    assert_eq!(t.offset_seconds, 8 * 3600);
}

#[test]
fn naive_time_keeps_wall_clock() {
    let t = parse_event_time("2026-02-27 10:15").unwrap();
    assert_eq!((t.local.year, t.local.month, t.local.day), (2026, 2, 27));
    assert_eq!((t.local.hour, t.local.minute, t.local.second), (10, 15, 0));
}

#[test]
fn unreadable_time_is_refused() {
    assert_eq!(
        parse_event_time("yesterday").unwrap_err(),
        "unsupported event_time format: yesterday"
    );
    assert_eq!(
        compute_game_day("27/02/2026", 4).unwrap_err(),
        "unsupported event_time format: 27/02/2026"
    );
}

#[test]
fn settings_fall_back_to_default() {
    assert_eq!(DEFAULT_DAY_BOUNDARY_HOUR, 4);
    assert_eq!(setting_i64_or(Some("6"), 4), 6);
    assert_eq!(setting_i64_or(Some("-3"), 4), -3);
    assert_eq!(setting_i64_or(Some("six"), 4), 4);
    assert_eq!(setting_i64_or(Some(""), 4), 4);
    assert_eq!(setting_i64_or(None, 4), 4);
}

#[test]
fn requested_game_day_is_trimmed() {
    assert_eq!(requested_game_day(Some("  2026-02-27 ")), Some("2026-02-27".to_string()));
    assert_eq!(requested_game_day(Some("   ")), None);
    assert_eq!(requested_game_day(None), None);
}
