use wuwa_echo_sight::buckets::{
    bucket_fit_min_samples, duel_pairs, push_label, push_source, format_scoped_bucket_key, lookup_entry, pick_scope,
    resolve_report_model_mode, select_bucket_champion_route_raw, select_v2_objective_for_bucket_raw,
    stat_display_name, BucketChampionRoute, BucketScope, PredictionBucket, V2BlendObjective,
};

fn bucket() -> PredictionBucket {
    PredictionBucket {
        sample_depth_bucket: "deep".to_string(),
        markov_hit_bucket: "hit".to_string(),
        motif_hit_bucket: "none".to_string(),
        active_stat_bucket: "low".to_string(),
        tier_signal_bucket: "step".to_string(),
    }
}

#[test]
fn keys_for_each_scope() {
    let b = bucket();
    assert_eq!(b.key(), "deep|hit|none|low|step");
    assert_eq!(b.scoped_key(BucketScope::Full5d), "deep|hit|none|low|step");
    assert_eq!(b.scoped_key(BucketScope::Active4d), "4a:deep|hit|none|low");
    assert_eq!(b.scoped_key(BucketScope::Context4d), "4c:deep|hit|none|step");
    assert_eq!(b.scoped_key(BucketScope::Core3d), "3:deep|hit|none");
}

#[test]
fn scope_orders_and_labels() {
    assert_eq!(
        BucketScope::training_scopes(),
        [BucketScope::Full5d, BucketScope::Active4d, BucketScope::Context4d, BucketScope::Core3d]
    );
    assert_eq!(
        BucketScope::blend_scopes(),
        [BucketScope::Core3d, BucketScope::Active4d, BucketScope::Context4d, BucketScope::Full5d]
    );
    assert_eq!(BucketScope::objective_scopes(), BucketScope::training_scopes());
    assert_eq!(BucketScope::Context4d.source_label(), "bucketed4d");
    assert_eq!(BucketScope::Core3d.specificity_rank(), 3);
    assert_eq!(BucketScope::Full5d.objective_source_label(), "5d");
    assert_eq!(V2BlendObjective::Top1.short_label(), "Top1优先");
    assert_eq!(BucketChampionRoute::PreferAutoCycle.source_token(), "auto_cycle");
    assert_eq!(BucketChampionRoute::Blend.short_label(), "混合器");
}

#[test]
fn fit_minimum_and_modes() {
    assert_eq!(bucket_fit_min_samples(12), 6);
    assert_eq!(bucket_fit_min_samples(8), 4);
    assert_eq!(bucket_fit_min_samples(0), 4);
    assert_eq!(bucket_fit_min_samples(9), 4);
    assert_eq!(bucket_fit_min_samples(11), 5);
    assert_eq!(resolve_report_model_mode("adaptive_v3"), "adaptive_v3");
    assert_eq!(resolve_report_model_mode("v2_canary"), "adaptive_v2");
    assert_eq!(resolve_report_model_mode("whatever"), "adaptive_v2");
    assert_eq!(resolve_report_model_mode("baseline_v1"), "baseline_v1");
    let d = duel_pairs();
    assert_eq!(d[0], ("cycle_vs_markov", "auto_cycle", "markov"));
    assert_eq!(d[2], ("approx_vs_base", "approx_shape", "base"));
}

#[test]
fn most_specific_scope_with_enough_samples_wins() {
    let b = bucket();
    let entries = vec![
        ("3:deep|hit|none".to_string(), BucketChampionRoute::PreferMarkov, 50usize),
        ("4a:deep|hit|none|low".to_string(), BucketChampionRoute::PreferAutoCycle, 7usize),
        ("4c:deep|hit|none|step".to_string(), BucketChampionRoute::PreferMarkov, 9usize),
        ("deep|hit|none|low|step".to_string(), BucketChampionRoute::Blend, 3usize),
    ];
    assert_eq!(lookup_entry(&entries, &"4a:deep|hit|none|low".to_string()), Some((BucketChampionRoute::PreferAutoCycle, 7)));
    assert_eq!(pick_scope(&entries, 6, &b), Some((BucketScope::Context4d, BucketChampionRoute::PreferMarkov)));
    assert_eq!(
        select_bucket_champion_route_raw(BucketChampionRoute::Blend, &entries, 12, 100, &b),
        (BucketChampionRoute::PreferMarkov, "4d")
    );
    assert_eq!(
        select_bucket_champion_route_raw(BucketChampionRoute::Blend, &entries, 100, 100, &b),
        (BucketChampionRoute::PreferMarkov, "3d")
    );
    assert_eq!(
        select_bucket_champion_route_raw(BucketChampionRoute::PreferAutoCycle, &vec![], 12, 6, &b),
        (BucketChampionRoute::PreferAutoCycle, "global")
    );
    assert_eq!(
        select_bucket_champion_route_raw(BucketChampionRoute::PreferAutoCycle, &vec![], 12, 5, &b),
        (BucketChampionRoute::Blend, "fallback")
    );
    let objectives = vec![("deep|hit|none|low|step".to_string(), V2BlendObjective::Top1, 6usize)];
    assert_eq!(
        select_v2_objective_for_bucket_raw(V2BlendObjective::Calibrated, &objectives, 12, 0, &b),
        (V2BlendObjective::Top1, "5d")
    );
    assert_eq!(
        select_v2_objective_for_bucket_raw(V2BlendObjective::Calibrated, &objectives, 20, 0, &b),
        (V2BlendObjective::Calibrated, "fallback")
    );
}

#[test]
fn equal_four_dimension_counts_keep_the_active_scope() {
    let b = bucket();
    let entries = vec![
        ("4c:deep|hit|none|step".to_string(), V2BlendObjective::Top1, 8usize),
        ("4a:deep|hit|none|low".to_string(), V2BlendObjective::Calibrated, 8usize),
    ];
    assert_eq!(pick_scope(&entries, 4, &b), Some((BucketScope::Active4d, V2BlendObjective::Calibrated)));
}

#[test]
fn scoped_keys_read_back() {
    let b = bucket();
    assert_eq!(
        format_scoped_bucket_key(&b.scoped_key(BucketScope::Active4d)),
        "4d(active) depth=deep / markov=hit / motif=none / active=low"
    );
    assert_eq!(
        format_scoped_bucket_key(&b.scoped_key(BucketScope::Context4d)),
        "4d(ctx) depth=deep / markov=hit / motif=none / ctx=step"
    );
    assert_eq!(format_scoped_bucket_key(&b.scoped_key(BucketScope::Core3d)), "3d depth=deep / markov=hit / motif=none");
    assert_eq!(
        format_scoped_bucket_key(&b.key()),
        "5d depth=deep / markov=hit / motif=none / active=low / ctx=step"
    );
    assert_eq!(format_scoped_bucket_key("4a:x|y"), "4a:x|y");
    assert_eq!(format_scoped_bucket_key("odd"), "odd");
}

#[test]
fn display_names_fall_back_to_key() {
    let names = vec![("crit_rate".to_string(), "暴击".to_string()), ("crit_rate".to_string(), "other".to_string())];
    assert_eq!(stat_display_name(Some(&names), "crit_rate"), "other");
    assert_eq!(stat_display_name(Some(&names), "hp_pct"), "hp_pct");
    assert_eq!(stat_display_name(None, "hp_pct"), "hp_pct");
}

#[test]
fn labels_gather_per_stat() {
    let mut m: Vec<(String, Vec<String>)> = Vec::new();
    push_label(&mut m, "crit_rate", "a".to_string());
    push_source(&mut m, "hp_pct", "markov");
    push_label(&mut m, "crit_rate", "b".to_string());
    assert_eq!(
        m,
        vec![
            ("crit_rate".to_string(), vec!["a".to_string(), "b".to_string()]),
            ("hp_pct".to_string(), vec!["markov".to_string()]),
        ]
    );
}
