use wuwa_echo_sight::sync::{
    status_after_push, sync_echo_fields, sync_game_day, sync_should_record, sync_substat,
};

#[test]
fn pushed_echo_defaults() {
    let f = sync_echo_fields(None, None, None, None, None);
    assert_eq!(f.main_stat_key, "crit_rate");
    assert_eq!(f.cost_class, 4);
    assert_eq!(f.opened_slots_count, 0);
    assert_eq!(f.status, "tracking");
    assert_eq!(f.nickname, None);
    let g = sync_echo_fields(Some("n"), Some("atk_pct"), Some(3), Some(2), Some("completed"));
    assert_eq!((g.nickname.as_deref(), g.main_stat_key.as_str(), g.cost_class, g.opened_slots_count, g.status.as_str()),
        (Some("n"), "atk_pct", 3, 2, "completed"));
    assert_eq!(sync_echo_fields(None, None, None, None, Some("weird")).status, "tracking");
}

#[test]
fn pushed_substats() {
    assert_eq!(sync_substat(None, Some(5), Some(2)), None);
    assert_eq!(sync_substat(Some(""), Some(5), Some(2)), None);
    let s = sync_substat(Some("crit_rate"), None, None).unwrap();
    assert_eq!((s.stat_key.as_str(), s.value_scaled, s.slot_no), ("crit_rate", 0, 1));
    assert!(sync_should_record(0, 0));
    assert!(!sync_should_record(1, 0));
    assert!(!sync_should_record(0, 1));
}

#[test]
fn pushes_do_not_reopen_finished_echoes() {
    assert_eq!(status_after_push("completed", "tracking"), "completed");
    assert_eq!(status_after_push("abandoned", "tracking"), "abandoned");
    assert_eq!(status_after_push("paused", "tracking"), "tracking");
    assert_eq!(status_after_push("completed", "paused"), "paused");
}

#[test]
fn pushed_event_game_day() {
    assert_eq!(sync_game_day("2026-02-27T03:00:00+00:00", 4), "2026-02-26");
    assert_eq!(sync_game_day("garbage", 4), "1970-01-01");
}


#[test]
fn prediction_runs_key_and_score() {
    use_runs();
}

fn use_runs() {
    let seq: Vec<String> = ["a", "b", "c"].iter().map(|s| s.to_string()).collect();
    assert_eq!(
        wuwa_echo_sight::runs::prediction_context_hash("2026-02-27", &seq, "adaptive_v2"),
        "2026-02-27|3|a>b>c|adaptive_v2|0"
    );
    assert_eq!(wuwa_echo_sight::runs::prediction_context_hash("d", &[], "m"), "d|0|empty|m|0");
    let ranked: Vec<String> = ["x", "y", "z", "w"].iter().map(|s| s.to_string()).collect();
    assert_eq!(wuwa_echo_sight::runs::prediction_hits(&ranked, "x"), (true, true));
    assert_eq!(wuwa_echo_sight::runs::prediction_hits(&ranked, "z"), (false, true));
    assert_eq!(wuwa_echo_sight::runs::prediction_hits(&ranked, "w"), (false, false));
    assert_eq!(wuwa_echo_sight::runs::prediction_hits(&vec![], "w"), (false, false));
}
