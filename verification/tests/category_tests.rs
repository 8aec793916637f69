use wuwa_echo_sight::category::{infer_zone, stat_category, stat_matches_zone};

#[test]
fn hypothesis_stat_category_mapping() {
    assert_eq!(stat_category("crit_rate"), "crit");
    assert_eq!(stat_category("atk_flat"), "atk");
    assert_eq!(stat_category("skill_dmg"), "dmg_bonus");
    assert_eq!(stat_category("energy_regen"), "utility");
}

#[test]
fn verification_stat_category_mapping() {
    assert_eq!(stat_category("crit_rate"), "crit");
    assert_eq!(stat_category("atk_flat"), "atk");
    assert_eq!(stat_category("skill_dmg"), "dmg_bonus");
    assert_eq!(stat_category("energy_regen"), "utility");
}

#[test]
fn unknown_stat_has_unknown_category() {
    assert_eq!(stat_category("mystery"), "unknown");
    assert_eq!(stat_category(""), "unknown");
    assert_eq!(stat_category("hp_pct"), "hp");
    assert_eq!(stat_category("def_flat"), "def");
    assert_eq!(stat_category("liberation_dmg"), "dmg_bonus");
}

#[test]
fn zones_follow_table_order() {
    assert_eq!(infer_zone("atk"), vec!["攻防区", "攻生区"]);
    assert_eq!(infer_zone("dmg_bonus"), vec!["伤害加成区", "共鸣区"]);
    assert_eq!(infer_zone("crit"), vec!["爆区"]);
    assert_eq!(infer_zone("utility"), vec!["共鸣区"]);
    assert!(infer_zone("unknown").is_empty());
}

#[test]
fn stat_matches_zone_by_category() {
    assert!(stat_matches_zone("crit_dmg", "爆区"));
    assert!(stat_matches_zone("hp_flat", "防生区"));
    assert!(!stat_matches_zone("hp_flat", "爆区"));
    assert!(!stat_matches_zone("mystery", "攻防区"));
}
