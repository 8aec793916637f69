//! Stat categories and the "zones" (groups of categories) they belong to.
use vstd::prelude::*;
use crate::text::same_text;

verus! {

/// The category of a stat key; keys outside the table are `"unknown"`.
pub open spec fn spec_stat_category(k: Seq<char>) -> Seq<char> {
    if k == "atk_flat"@ || k == "atk_pct"@ {
        "atk"@
    } else if k == "def_flat"@ || k == "def_pct"@ {
        "def"@
    } else if k == "hp_flat"@ || k == "hp_pct"@ {
        "hp"@
    } else if k == "crit_rate"@ || k == "crit_dmg"@ {
        "crit"@
    } else if k == "energy_regen"@ {
        "utility"@
    } else if k == "basic_dmg"@ || k == "heavy_dmg"@ || k == "skill_dmg"@ || k
        == "liberation_dmg"@ {
        "dmg_bonus"@
    } else {
        "unknown"@
    }
}

/// The zone labels, in table order.
pub open spec fn spec_zone_labels() -> Seq<Seq<char>> {
    seq!["攻防区"@, "攻生区"@, "防生区"@, "伤害加成区"@, "共鸣区"@, "爆区"@]
}

/// Whether the zone at position `z` of the table covers category `c`.
pub open spec fn spec_zone_covers(z: int, c: Seq<char>) -> bool {
    if z == 0 {
        c == "atk"@ || c == "def"@
    } else if z == 1 {
        c == "atk"@ || c == "hp"@
    } else if z == 2 {
        c == "def"@ || c == "hp"@
    } else if z == 3 {
        c == "dmg_bonus"@
    } else if z == 4 {
        c == "dmg_bonus"@ || c == "utility"@
    } else if z == 5 {
        c == "crit"@
    } else {
        false
    }
}

/// The labels of the zones among the first `upto` table entries that cover `c`, in table order.
pub open spec fn spec_zones_upto(c: Seq<char>, upto: int) -> Seq<Seq<char>>
    decreases upto,
{
    if upto <= 0 {
        Seq::empty()
    } else {
        let rest = spec_zones_upto(c, upto - 1);
        if spec_zone_covers(upto - 1, c) {
            rest.push(spec_zone_labels()[upto - 1])
        } else {
            rest
        }
    }
}

/// The labels of all zones that cover category `c`, in table order.
pub open spec fn spec_infer_zone(c: Seq<char>) -> Seq<Seq<char>> {
    spec_zones_upto(c, 6)
}

/// Maps a stat key to its category.
pub fn stat_category(stat_key: &str) -> (r: &'static str)
    ensures
        r@ == spec_stat_category(stat_key@),
{
    if same_text(stat_key, "atk_flat") || same_text(stat_key, "atk_pct") {
        "atk"
    } else if same_text(stat_key, "def_flat") || same_text(stat_key, "def_pct") {
        "def"
    } else if same_text(stat_key, "hp_flat") || same_text(stat_key, "hp_pct") {
        "hp"
    } else if same_text(stat_key, "crit_rate") || same_text(stat_key, "crit_dmg") {
        "crit"
    } else if same_text(stat_key, "energy_regen") {
        "utility"
    } else if same_text(stat_key, "basic_dmg") || same_text(stat_key, "heavy_dmg")
        || same_text(stat_key, "skill_dmg") || same_text(stat_key, "liberation_dmg") {
        "dmg_bonus"
    } else {
        "unknown"
    }
}

pub(crate) fn zone_label(z: usize) -> (r: &'static str)
    requires
        z < 6,
    ensures
        r@ == spec_zone_labels()[z as int],
{
    if z == 0 {
        "攻防区"
    } else if z == 1 {
        "攻生区"
    } else if z == 2 {
        "防生区"
    } else if z == 3 {
        "伤害加成区"
    } else if z == 4 {
        "共鸣区"
    } else {
        "爆区"
    }
}

pub(crate) fn zone_covers(z: usize, category: &str) -> (r: bool)
    requires
        z < 6,
    ensures
        r == spec_zone_covers(z as int, category@),
{
    if z == 0 {
        same_text(category, "atk") || same_text(category, "def")
    } else if z == 1 {
        same_text(category, "atk") || same_text(category, "hp")
    } else if z == 2 {
        same_text(category, "def") || same_text(category, "hp")
    } else if z == 3 {
        same_text(category, "dmg_bonus")
    } else if z == 4 {
        same_text(category, "dmg_bonus") || same_text(category, "utility")
    } else {
        same_text(category, "crit")
    }
}

/// The labels of the zones that contain `category`, in table order.
pub fn infer_zone(category: &str) -> (r: Vec<&'static str>)
    ensures
        r@.map_values(|s: &'static str| s@) == spec_infer_zone(category@),
{
    let mut out: Vec<&'static str> = Vec::new();
    let mut z: usize = 0;
    while z < 6
        invariant
            z <= 6,
            out@.map_values(|s: &'static str| s@) == spec_zones_upto(category@, z as int),
        decreases 6 - z,
    {
        if zone_covers(z, category) {
            let label = zone_label(z);
            out.push(label);
            assert(out@.map_values(|s: &'static str| s@) =~= spec_zones_upto(category@, z as int).push(label@));
        }
        z = z + 1;
    }
    out
}

/// Whether the zone labelled `zone_label` contains the category of `stat_key`.
pub fn stat_matches_zone(stat_key: &str, zone_label: &str) -> (r: bool)
    ensures
        r == spec_infer_zone(spec_stat_category(stat_key@)).contains(zone_label@),
{
    let category = stat_category(stat_key);
    let zones = infer_zone(category);
    let mut i: usize = 0;
    while i < zones.len()
        invariant
            i <= zones.len(),
            zones@.map_values(|s: &'static str| s@) == spec_infer_zone(category@),
            category@ == spec_stat_category(stat_key@),
            forall|j: int| 0 <= j < i ==> zones@[j]@ != zone_label@,
        decreases zones.len() - i,
    {
        if same_text(zones[i], zone_label) {
            assert(zones@.map_values(|s: &'static str| s@)[i as int] == zone_label@);
            assert(spec_infer_zone(category@)[i as int] == zone_label@);
            return true;
        }
        i = i + 1;
    }
    assert forall|j: int| 0 <= j < spec_infer_zone(category@).len() implies spec_infer_zone(category@)[j] != zone_label@ by {
        assert(zones@.map_values(|s: &'static str| s@)[j] == zones@[j]@);
    }
    false
}

} // verus!
