use wuwa_echo_sight::cycles::{check_guess, manual_cycle_counts};
use wuwa_echo_sight::domain::DailyPatternDecisionFilter;
use wuwa_echo_sight::signals::interval_signal_counts;
use wuwa_echo_sight::reversion::{recency_counts, reversion_counts, reversion_window};
use wuwa_echo_sight::state::{
    compute_sequence_state_core, future_has_category, interval_trigger_keys, BacktestEventLite, PatternEventLite,
};
use wuwa_echo_sight::streaks::{category_streaks, group_echo_rows, tier_move_stats, zone_flow, EventSlim};
use wuwa_echo_sight::tally::{tally, tally_pairs};
use wuwa_echo_sight::transitions::{count_transitions, key_index};
use wuwa_echo_sight::windows::{
    distinct_canonical_shapes, effective_max_order, markov_context_counts, pattern_params,
    resolve_deployment_mode, window_shapes, window_supports,
};

fn s(v: &[&str]) -> Vec<String> {
    v.iter().map(|x| x.to_string()).collect()
}

fn ev(k: &str, tier: i64, seq: i64) -> PatternEventLite {
    PatternEventLite { stat_key: k.to_string(), tier_index: tier, analysis_seq: seq }
}

fn slim(k: &str, tier: i64, slot: i64) -> EventSlim {
    EventSlim { stat_key: k.to_string(), tier_index: tier, slot_no: slot }
}

#[test]
fn tallies_keep_first_appearance_order() {
    assert_eq!(tally(&s(&["b", "a", "b", "c", "b"])), vec![("b".to_string(), 3), ("a".to_string(), 1), ("c".to_string(), 1)]);
    assert!(tally(&vec![]).is_empty());
    let pairs = vec![("x".to_string(), "y".to_string()), ("x".to_string(), "y".to_string()), ("y".to_string(), "x".to_string())];
    assert_eq!(
        tally_pairs(&pairs),
        vec![(("x".to_string(), "y".to_string()), 2), (("y".to_string(), "x".to_string()), 1)]
    );
}

#[test]
fn crit_heavy_state() {
    let events = vec![ev("crit_rate", 3, 1), ev("crit_dmg", 4, 2), ev("crit_rate", 4, 3)];
    let st = compute_sequence_state_core(&events);
    assert_eq!(st.active_stat_count_recent8, 2);
    assert_eq!(st.active_stat_count_recent12, 2);
    assert_eq!(st.active_stat_bucket, "low");
    assert_eq!(st.zone_candidate, "爆区");
    assert_eq!(st.zone_hits_recent8, 3);
    assert_eq!(st.recent8_len, 3);
    assert_eq!(st.out_of_zone_streak, 0);
    assert_eq!(st.crit_signal, "double");
    assert_eq!(st.dominant_category_recent4, "crit");
    assert_eq!(st.dominant_count_recent4, 3);
    assert_eq!(st.current_category_run_len, 3);
    assert_eq!(st.tier_signal, "step");
}

#[test]
fn empty_state_is_mixed() {
    let st = compute_sequence_state_core(&[]);
    assert_eq!(st.active_stat_count_recent8, 0);
    assert_eq!(st.zone_candidate, "mixed");
    assert_eq!(st.dominant_category_recent8, "mixed");
    assert_eq!(st.crit_signal, "none");
    assert_eq!(st.current_category_run_len, 0);
}

#[test]
fn future_category_within_horizon() {
    let events: Vec<BacktestEventLite> = ["atk_pct", "hp_pct", "crit_rate", "def_pct"]
        .iter()
        .map(|k| BacktestEventLite {
            stat_key: k.to_string(),
            tier_index: 1,
            echo_id: "e".to_string(),
            slot_no: 1,
            analysis_seq: 1,
        })
        .collect();
    assert!(future_has_category(&events, 0, 2, "crit"));
    assert!(!future_has_category(&events, 0, 1, "crit"));
    assert!(!future_has_category(&events, 2, 5, "crit"));
    assert!(future_has_category(&events, 1, 10, "def"));
}

#[test]
fn interval_triggers_of_last_events() {
    let events = vec![ev("crit_rate", 3, 1), ev("crit_rate", 4, 2)];
    let t = interval_trigger_keys(&events);
    let keys: Vec<&str> = t.iter().map(|(k, _)| k.as_str()).collect();
    assert_eq!(keys, vec!["same_stat_step", "same_cat2_crit", "low_active", "zone_爆区"]);
    assert!(interval_trigger_keys(&[]).is_empty());
    let jump = vec![ev("atk_pct", 1, 1), ev("hp_pct", 8, 2)];
    let keys: Vec<String> = interval_trigger_keys(&jump).into_iter().map(|(k, _)| k).collect();
    assert_eq!(keys[0], "last_extreme");
}

#[test]
fn rows_group_by_echo() {
    let rows = vec![
        ("e1".to_string(), slim("a", 1, 1)),
        ("e1".to_string(), slim("b", 2, 2)),
        ("e2".to_string(), slim("c", 3, 1)),
        ("e1".to_string(), slim("d", 4, 3)),
    ];
    let g = group_echo_rows(rows);
    assert_eq!(g.len(), 3);
    assert_eq!(g[0].0, "e1");
    assert_eq!(g[0].1.len(), 2);
    assert_eq!(g[1].0, "e2");
    assert_eq!(g[2].1[0].stat_key, "d");
}

#[test]
fn streaks_of_same_category() {
    let events = vec![
        slim("crit_rate", 2, 1),
        slim("crit_dmg", 3, 2),
        slim("atk_pct", 1, 3),
        slim("hp_pct", 1, 4),
        slim("hp_flat", 2, 5),
    ];
    let rows = category_streaks(&"e9".to_string(), &events);
    assert_eq!(rows.len(), 2);
    assert_eq!(rows[0].category, "crit");
    assert_eq!((rows[0].start_slot, rows[0].end_slot, rows[0].length), (1, 2, 2));
    assert_eq!(rows[0].stats, s(&["crit_rate", "crit_dmg"]));
    assert_eq!(rows[0].possible_zones, s(&["爆区"]));
    assert_eq!(rows[1].category, "hp");
    assert_eq!(rows[1].tiers, vec![1, 2]);
    assert_eq!(rows[1].echo_id, "e9");
}

#[test]
fn zone_flow_counts_visits_and_moves() {
    let groups = vec![
        ("e1".to_string(), vec![slim("crit_rate", 1, 1), slim("atk_pct", 1, 2), slim("mystery", 1, 3)]),
        ("e2".to_string(), vec![slim("crit_dmg", 1, 1)]),
    ];
    let (visits, moves) = zone_flow(&groups);
    assert_eq!(visits, vec![("爆区".to_string(), 2), ("攻防区".to_string(), 1), ("未知".to_string(), 1)]);
    assert_eq!(
        moves,
        vec![
            (("爆区".to_string(), "攻防区".to_string()), 1),
            (("攻防区".to_string(), "未知".to_string()), 1)
        ]
    );
}

#[test]
fn tier_moves_between_repeats() {
    let rows = vec![
        ("a".to_string(), 3),
        ("a".to_string(), 3),
        ("a".to_string(), 4),
        ("a".to_string(), 7),
        ("b".to_string(), 1),
        ("b".to_string(), 1),
    ];
    let m = tier_move_stats(&rows);
    assert_eq!((m.stop_count, m.step_count, m.jump_count, m.total_pairs), (2, 1, 1, 4));
    assert_eq!(m.pairs_by_stat, vec![("a".to_string(), 3), ("b".to_string(), 1)]);
}

#[test]
fn transitions_inside_each_echo() {
    let keys = s(&["a", "b"]);
    assert_eq!(key_index(&keys, &"b".to_string()), Some(1));
    assert_eq!(key_index(&keys, &"z".to_string()), None);
    let groups = vec![
        ("e1".to_string(), vec![slim("a", 1, 1), slim("b", 1, 2), slim("a", 1, 3)]),
        ("e2".to_string(), vec![slim("b", 1, 1), slim("z", 1, 2), slim("b", 1, 3)]),
    ];
    let t = count_transitions(&keys, &groups);
    assert_eq!(t.matrix, vec![vec![0, 1], vec![1, 0]]);
    assert_eq!(t.total, 2);
}

#[test]
fn reversion_positions_gaps_and_buckets() {
    assert_eq!(reversion_window(None), 10);
    assert_eq!(reversion_window(Some(1)), 2);
    assert_eq!(reversion_window(Some(99)), 40);
    let keys = s(&["a", "b", "a", "a", "c", "a"]);
    let r = reversion_counts(&keys, &"a".to_string(), Some(2));
    assert_eq!(r.total_count, 4);
    assert_eq!(r.positions, vec![0, 2, 3, 5]);
    assert_eq!(r.gaps, vec![2, 1, 2]);
    // appearances before each (window 2): 0, 1, 1, 1; after each: 1, 1, 1, 0
    assert_eq!(r.buckets.len(), 2);
    assert_eq!((r.buckets[0].prev_window_count, r.buckets[0].sample_count, r.buckets[0].next_window_total), (0, 1, 1));
    assert_eq!((r.buckets[1].prev_window_count, r.buckets[1].sample_count, r.buckets[1].next_window_total), (1, 3, 2));
    assert_eq!(recency_counts(&keys, &s(&["a", "c", "z"])), vec![(4, 0), (1, 1), (0, 6)]);
}

#[test]
fn manual_cycles_and_guesses() {
    let seq = s(&["x", "a", "b", "a", "c", "c", "d", "a"]);
    let m = manual_cycle_counts(&seq, 1, 3);
    assert_eq!(m.full_cycles, 2);
    assert_eq!(m.next_cycle_pos, 2);
    assert_eq!(m.cycle_shapes, vec![("ABA".to_string(), 1), ("AAB".to_string(), 1)]);
    assert_eq!(m.position_counts, vec![("b".to_string(), 1), ("c".to_string(), 1)]);
    assert_eq!(m.position_total, 2);
    let g = check_guess(&seq, 1, 3, "AB", 2);
    assert_eq!(g.opportunities, 4);
    assert_eq!(g.support, 3);
    assert_eq!(g.matched_cycles, vec![1, 2]);
    let long = check_guess(&seq, 1, 3, "ABCD", 4);
    assert_eq!((long.opportunities, long.support), (0, 0));
    let none = check_guess(&seq, 6, 3, "AB", 2);
    assert_eq!((none.opportunities, none.support), (0, 0));
}

#[test]
fn windows_supports_and_shapes() {
    let seq = s(&["a", "b", "a", "b", "a"]);
    assert_eq!(window_supports(&seq, 2), vec![(0, 2), (1, 2)]);
    assert_eq!(window_supports(&seq, 3), vec![(0, 2), (1, 1)]);
    assert!(window_supports(&seq, 6).is_empty());
    assert_eq!(window_shapes(&seq, 3), s(&["ABA", "ABA", "ABA"]));
    let (t, total) = markov_context_counts(&s(&["a", "b", "a", "c", "a"]), 1);
    assert_eq!(t, vec![("b".to_string(), 1), ("c".to_string(), 1)]);
    assert_eq!(total, 2);
    assert_eq!(effective_max_order(5, 3), 2);
    assert_eq!(effective_max_order(5, 1), 1);
    assert_eq!(effective_max_order(2, 10), 2);
}

#[test]
fn pattern_params_are_clamped() {
    let f = DailyPatternDecisionFilter {
        min_len: Some(1),
        max_len: Some(99),
        min_support: None,
        max_order: Some(0),
        top_k: Some(100),
        manual_start_index: Some(-4),
        manual_cycle_len: Some(40),
        manual_guess_shapes: Some(s(&["abab", "x-y-x-y", "q", "zzyy"])),
        ..Default::default()
    };
    let p = pattern_params(&f);
    assert_eq!((p.min_len, p.max_len, p.min_support, p.max_order, p.top_k), (2, 16, 2, 1, 30));
    assert_eq!(p.manual_start_index, 0);
    assert_eq!(p.manual_cycle_len, Some(20));
    assert_eq!(p.manual_guess_shapes, s(&["ABAB", "AABB"]));
    let d = pattern_params(&DailyPatternDecisionFilter::default());
    assert_eq!((d.min_len, d.max_len, d.min_support, d.max_order, d.top_k), (4, 7, 2, 5, 10));
    assert_eq!(d.manual_cycle_len, None);
    assert!(d.manual_guess_shapes.is_empty());
    assert_eq!(distinct_canonical_shapes(&s(&["ba", "AB", "c"])), s(&["AB"]));
    assert_eq!(resolve_deployment_mode("v2_shadow"), "v2_shadow");
    assert_eq!(resolve_deployment_mode("x"), "adaptive_v2");
}

#[test]
fn interval_counts_follow_the_walk() {
    let keys = ["crit_rate", "crit_rate", "atk_pct", "hp_pct", "crit_dmg", "def_pct", "atk_flat", "hp_flat",
        "crit_rate", "skill_dmg", "atk_pct", "crit_dmg", "hp_pct"];
    let history: Vec<BacktestEventLite> = keys
        .iter()
        .enumerate()
        .map(|(i, k)| BacktestEventLite {
            stat_key: k.to_string(),
            tier_index: 3,
            echo_id: "e".to_string(),
            slot_no: 1,
            analysis_seq: i as i64 + 1,
        })
        .collect();
    let active = vec!["low_active".to_string(), "never".to_string()];
    let targets = vec!["crit", "dmg_bonus"];
    let c = interval_signal_counts(&history, &active, &targets, 2);
    // positions 8, 9, 10 are walked (13 events, horizon 2)
    assert_eq!(c.baseline, vec![(2, 3), (1, 3)]);
    assert_eq!(c.after[1], vec![(0, 0), (0, 0)]);
    assert_eq!(c.after[0].len(), 2);
    assert!(c.after[0][0].1 <= 3);
    let short = interval_signal_counts(&history[..9].to_vec(), &active, &targets, 2);
    assert_eq!(short.baseline, vec![(0, 0), (0, 0)]);
}
