use wuwa_echo_sight::domain::{
    AppendOrderedEventInput, BackfillSlotInput, CreateEchoInput, EditOrderedEventInput, ExpectationItem,
    SaveExpectationPresetInput, UpdateEchoInput,
};
use wuwa_echo_sight::events::{
    affected_range, analysis_seq_assignments, append_conflict, check_append_input, check_slot_no, edit_conflict,
    plan_event_edit, tier_value_error, StoredEventFields,
};
use wuwa_echo_sight::rules::{
    ensure_backfill_slots, ensure_cost_class, ensure_expectation_items, ensure_status, normalize_nickname,
    plan_create_echo, plan_save_preset, plan_update_echo, EchoFields,
};

fn item(k: &str, rank: i64) -> ExpectationItem {
    ExpectationItem { stat_key: k.to_string(), rank }
}

fn slot(no: i64, k: &str) -> BackfillSlotInput {
    BackfillSlotInput { slot_no: no, stat_key: k.to_string(), tier_index: 3 }
}

#[test]
fn statuses_are_checked() {
    for s in ["tracking", "paused", "abandoned", "completed"] {
        assert_eq!(ensure_status(s), Ok(()));
    }
    assert_eq!(ensure_status("done"), Err("invalid status: done".to_string()));
    assert_eq!(ensure_status(""), Err("invalid status: ".to_string()));
}

#[test]
fn cost_classes_are_checked() {
    assert_eq!(ensure_cost_class(1), Ok(()));
    assert_eq!(ensure_cost_class(3), Ok(()));
    assert_eq!(ensure_cost_class(4), Ok(()));
    assert_eq!(ensure_cost_class(2), Err("invalid cost_class: 2".to_string()));
    assert_eq!(ensure_cost_class(-7), Err("invalid cost_class: -7".to_string()));
}

#[test]
fn expectation_items_first_error_wins() {
    assert_eq!(ensure_expectation_items(&[item("crit_rate", 1), item("crit_dmg", 2)]), Ok(()));
    assert_eq!(ensure_expectation_items(&[]), Ok(()));
    assert_eq!(
        ensure_expectation_items(&[item("crit_rate", 1), item("atk_pct", 0)]),
        Err("rank must be >= 1, got 0".to_string())
    );
    assert_eq!(
        ensure_expectation_items(&[item("crit_rate", 1), item("crit_rate", 2), item("x", -1)]),
        Err("duplicate stat_key in expectation items: crit_rate".to_string())
    );
}

#[test]
fn backfill_slots_are_checked_in_order() {
    assert_eq!(ensure_backfill_slots(&[slot(1, "a"), slot(2, "b")]), Ok(()));
    assert_eq!(ensure_backfill_slots(&[slot(6, "a")]), Err("slot_no out of range: 6".to_string()));
    assert_eq!(ensure_backfill_slots(&[slot(0, "a")]), Err("slot_no out of range: 0".to_string()));
    assert_eq!(
        ensure_backfill_slots(&[slot(2, "a"), slot(2, "b")]),
        Err("duplicate slot_no in backfill: 2".to_string())
    );
    assert_eq!(
        ensure_backfill_slots(&[slot(2, "a"), slot(3, "a")]),
        Err("duplicate stat_key in backfill: a".to_string())
    );
}

#[test]
fn nicknames_are_trimmed() {
    assert_eq!(normalize_nickname("  Blue  "), Some("Blue".to_string()));
    assert_eq!(normalize_nickname(" \t\n "), None);
    assert_eq!(normalize_nickname("\u{3000}甲\u{3000}"), Some("甲".to_string()));
}

#[test]
fn new_echo_checks_cost_then_status() {
    let input = CreateEchoInput {
        nickname: Some("  x ".to_string()),
        main_stat_key: "crit_rate".to_string(),
        cost_class: 4,
        status: None,
    };
    let f = plan_create_echo(&input).unwrap();
    assert_eq!(f.status, "tracking");
    assert_eq!(f.nickname, Some("x".to_string()));

    let bad_both = CreateEchoInput { cost_class: 2, status: Some("nope".to_string()), ..input.clone() };
    assert_eq!(plan_create_echo(&bad_both), Err("invalid cost_class: 2".to_string()));
    let bad_status = CreateEchoInput { status: Some("nope".to_string()), ..input };
    assert_eq!(plan_create_echo(&bad_status), Err("invalid status: nope".to_string()));
}

#[test]
fn update_merges_with_stored_fields() {
    let stored = EchoFields {
        nickname: Some("old".to_string()),
        main_stat_key: "atk_pct".to_string(),
        cost_class: 3,
        status: "paused".to_string(),
    };
    let keep = UpdateEchoInput {
        echo_id: "e1".to_string(),
        nickname: None,
        main_stat_key: None,
        cost_class: None,
        status: None,
    };
    assert_eq!(plan_update_echo(&keep, &stored), Ok(stored.clone()));

    let change = UpdateEchoInput {
        nickname: Some("   ".to_string()),
        cost_class: Some(1),
        status: Some("completed".to_string()),
        ..keep.clone()
    };
    let merged = plan_update_echo(&change, &stored).unwrap();
    assert_eq!(merged.nickname, None);
    assert_eq!(merged.cost_class, 1);
    assert_eq!(merged.status, "completed");
    assert_eq!(merged.main_stat_key, "atk_pct");

    let bad = UpdateEchoInput { cost_class: Some(5), ..keep };
    assert_eq!(plan_update_echo(&bad, &stored), Err("invalid cost_class: 5".to_string()));
}

#[test]
fn preset_needs_items_then_name() {
    let ok = SaveExpectationPresetInput {
        preset_id: None,
        name: "  main ".to_string(),
        items: vec![item("a", 1)],
    };
    assert_eq!(plan_save_preset(&ok), Ok("main".to_string()));
    let blank = SaveExpectationPresetInput { name: " ".to_string(), ..ok.clone() };
    assert_eq!(plan_save_preset(&blank), Err("preset name cannot be empty".to_string()));
    let bad_items = SaveExpectationPresetInput { name: " ".to_string(), items: vec![item("a", 0)], ..ok };
    assert_eq!(plan_save_preset(&bad_items), Err("rank must be >= 1, got 0".to_string()));
}

#[test]
fn slots_outside_one_to_five_are_refused() {
    assert_eq!(check_slot_no(1), Ok(()));
    assert_eq!(check_slot_no(5), Ok(()));
    assert_eq!(check_slot_no(6), Err("slot_no out of range: 6".to_string()));
    let input = AppendOrderedEventInput {
        echo_id: "e".to_string(),
        slot_no: 0,
        stat_key: "crit_rate".to_string(),
        tier_index: 2,
        event_time: "bad".to_string(),
    };
    assert_eq!(check_append_input(&input), Err("slot_no out of range: 0".to_string()));
    let bad_time = AppendOrderedEventInput { slot_no: 2, ..input.clone() };
    assert_eq!(check_append_input(&bad_time), Err("unsupported event_time format: bad".to_string()));
    let good = AppendOrderedEventInput { slot_no: 2, event_time: "2026-02-27T10:00:00+08:00".to_string(), ..input };
    assert_eq!(check_append_input(&good), Ok(()));
}

#[test]
fn edit_merges_and_checks() {
    let stored = StoredEventFields {
        slot_no: 2,
        stat_key: "crit_rate".to_string(),
        tier_index: 3,
        event_time: "2026-02-27T10:00:00+08:00".to_string(),
    };
    let none = EditOrderedEventInput {
        event_id: "ev".to_string(),
        slot_no: None,
        stat_key: None,
        tier_index: None,
        event_time: None,
        reorder_mode: None,
    };
    let e = plan_event_edit(&none, &stored).unwrap();
    assert_eq!(e.slot_no, 2);
    assert_eq!(e.stat_key, "crit_rate");
    assert_eq!(e.tier_index, 3);
    assert_eq!(e.reorder_mode, "none");

    let bad_slot = EditOrderedEventInput { slot_no: Some(9), reorder_mode: Some("x".to_string()), ..none.clone() };
    assert_eq!(plan_event_edit(&bad_slot, &stored), Err("slot_no out of range: 9".to_string()));
    let bad_mode = EditOrderedEventInput { reorder_mode: Some("shuffle".to_string()), ..none.clone() };
    assert_eq!(plan_event_edit(&bad_mode, &stored), Err("invalid reorder_mode: shuffle".to_string()));
    let bad_time = EditOrderedEventInput { event_time: Some("later".to_string()), ..none.clone() };
    assert_eq!(plan_event_edit(&bad_time, &stored), Err("unsupported event_time format: later".to_string()));
    let assist = EditOrderedEventInput { reorder_mode: Some("time_assist".to_string()), tier_index: Some(5), ..none };
    let e = plan_event_edit(&assist, &stored).unwrap();
    assert_eq!(e.reorder_mode, "time_assist");
    assert_eq!(e.tier_index, 5);
}

#[test]
fn renumbering_counts_from_one() {
    let ids = vec!["b".to_string(), "a".to_string(), "c".to_string()];
    let r = analysis_seq_assignments(&ids);
    assert_eq!(r, vec![("b".to_string(), 1), ("a".to_string(), 2), ("c".to_string(), 3)]);
    assert_eq!(affected_range("time_assist", 3, "ev"), "all:3");
    assert_eq!(affected_range("none", 3, "ev"), "event:ev");
}

#[test]
fn conflicts_and_tier_messages() {
    assert_eq!(append_conflict(3, "crit_rate", false, false), Ok(()));
    assert_eq!(append_conflict(3, "crit_rate", true, true), Err("slot 3 already has an ordered event".to_string()));
    assert_eq!(
        append_conflict(3, "crit_rate", false, true),
        Err("stat crit_rate already exists on this echo, duplicate substat is not allowed".to_string())
    );
    assert_eq!(edit_conflict(4, "hp_pct", true, false), Err("slot 4 already used by another event".to_string()));
    assert_eq!(edit_conflict(4, "hp_pct", false, true), Err("stat hp_pct already exists in another slot".to_string()));
    assert_eq!(tier_value_error("crit_rate", 9), "invalid tier for stat_key=crit_rate tier_index=9");
}
