//! The integer and label features of the recent state of an event sequence
//! (how many distinct stats were active, which zone dominates, runs and tier moves).
use vstd::prelude::*;
use crate::category::{
    spec_infer_zone, spec_stat_category, spec_zone_covers, spec_zone_labels, stat_category,
    stat_matches_zone,
};
use crate::shape::{find_key, lemma_seen_covers, spec_seen};
use crate::text::same_text;

verus! {

/// One opened substat: which stat, at which tier, at which global position.
#[derive(Clone, Debug, PartialEq, Eq)]
pub struct PatternEventLite {
    pub stat_key: String,
    pub tier_index: i64,
    pub analysis_seq: i64,
}

/// The label and integer features of a sequence state; the shares and scores built
/// from these counts are computed by the caller.
#[derive(Clone, Debug, PartialEq, Eq)]
pub struct SequenceStateCore {
    pub active_stat_count_recent8: i64,
    pub active_stat_count_recent12: i64,
    pub active_stat_bucket: String,
    pub zone_candidate: String,
    /// Events among the last eight whose category the best zone covers.
    pub zone_hits_recent8: i64,
    pub recent8_len: i64,
    pub out_of_zone_streak: i64,
    pub crit_signal: String,
    pub tier_signal: String,
    pub dominant_category_recent4: String,
    pub dominant_count_recent4: i64,
    pub recent4_len: i64,
    pub dominant_category_recent8: String,
    pub dominant_count_recent8: i64,
    pub current_category_run_len: i64,
}

/// The stat keys of the events.
pub open spec fn spec_keys(events: Seq<PatternEventLite>) -> Seq<Seq<char>> {
    events.map_values(|e: PatternEventLite| e.stat_key@)
}

/// The tiers of the events.
pub open spec fn spec_tiers(events: Seq<PatternEventLite>) -> Seq<int> {
    events.map_values(|e: PatternEventLite| e.tier_index as int)
}

/// The last `w` elements of `s` (all of `s` when it is shorter).
pub open spec fn spec_recent<A>(s: Seq<A>, w: int) -> Seq<A> {
    if s.len() > w {
        s.subrange(s.len() - w, s.len() as int)
    } else {
        s
    }
}

/// How many of the keys have a category that zone `z` covers.
pub open spec fn spec_zone_hits(keys: Seq<Seq<char>>, z: int) -> nat
    decreases keys.len(),
{
    if keys.len() == 0 {
        0
    } else {
        spec_zone_hits(keys.drop_last(), z) + if spec_zone_covers(z, spec_stat_category(keys.last())) {
            1nat
        } else {
            0nat
        }
    }
}

/// Among zones `0..k`, the first with the most hits (at least one), or `(-1, 0)`.
pub open spec fn spec_best_zone(keys: Seq<Seq<char>>, k: int) -> (int, nat)
    decreases k,
{
    if k <= 0 {
        (-1, 0)
    } else {
        let prev = spec_best_zone(keys, k - 1);
        let c = spec_zone_hits(keys, k - 1);
        if c > prev.1 {
            (k - 1, c)
        } else {
            prev
        }
    }
}

/// The zone the recent keys concentrate in: the best zone when it covers at least half
/// of them, `"mixed"` otherwise.
pub open spec fn spec_zone_candidate(recent: Seq<Seq<char>>) -> Seq<char> {
    let best = spec_best_zone(recent, 6);
    if best.0 < 0 || 2 * best.1 < recent.len() {
        "mixed"@
    } else {
        spec_zone_labels()[best.0]
    }
}

/// How many keys at the end of `keys` lie outside zone `label`.
pub open spec fn spec_out_of_zone_run(keys: Seq<Seq<char>>, label: Seq<char>) -> nat
    decreases keys.len(),
{
    if keys.len() == 0 {
        0
    } else if spec_infer_zone(spec_stat_category(keys.last())).contains(label) {
        0
    } else {
        spec_out_of_zone_run(keys.drop_last(), label) + 1
    }
}

/// The keys whose category is `"crit"`, in order.
pub open spec fn spec_crit_keys(keys: Seq<Seq<char>>) -> Seq<Seq<char>>
    decreases keys.len(),
{
    if keys.len() == 0 {
        Seq::empty()
    } else if spec_stat_category(keys.last()) == "crit"@ {
        spec_crit_keys(keys.drop_last()).push(keys.last())
    } else {
        spec_crit_keys(keys.drop_last())
    }
}

/// The category names in ascending byte order; every category is one of them.
pub open spec fn spec_category_names() -> Seq<Seq<char>> {
    seq!["atk"@, "crit"@, "def"@, "dmg_bonus"@, "hp"@, "unknown"@, "utility"@]
}

/// How many keys fall in the category at position `c` of `spec_category_names`.
pub open spec fn spec_category_hits(keys: Seq<Seq<char>>, c: int) -> nat
    decreases keys.len(),
{
    if keys.len() == 0 {
        0
    } else {
        spec_category_hits(keys.drop_last(), c) + if spec_stat_category(keys.last())
            == spec_category_names()[c] {
            1nat
        } else {
            0nat
        }
    }
}

/// Among categories `0..k`, the one with the most hits, the later one on ties, or `(-1, 0)`.
pub open spec fn spec_dominant(keys: Seq<Seq<char>>, k: int) -> (int, nat)
    decreases k,
{
    if k <= 0 {
        (-1, 0)
    } else {
        let prev = spec_dominant(keys, k - 1);
        let c = spec_category_hits(keys, k - 1);
        if c > 0 && c >= prev.1 {
            (k - 1, c)
        } else {
            prev
        }
    }
}

/// The dominant category's name, `"mixed"` for no keys.
pub open spec fn spec_dominant_name(keys: Seq<Seq<char>>) -> Seq<char> {
    let d = spec_dominant(keys, 7);
    if d.0 < 0 {
        "mixed"@
    } else {
        spec_category_names()[d.0]
    }
}

/// How many keys at the end of `keys` share the category `cat`.
pub open spec fn spec_category_run(keys: Seq<Seq<char>>, cat: Seq<char>) -> nat
    decreases keys.len(),
{
    if keys.len() == 0 {
        0
    } else if spec_stat_category(keys.last()) == cat {
        spec_category_run(keys.drop_last(), cat) + 1
    } else {
        0
    }
}

/// The length of the run of equal categories that ends the sequence.
pub open spec fn spec_tail_run(keys: Seq<Seq<char>>) -> nat {
    if keys.len() == 0 {
        0
    } else {
        spec_category_run(keys, spec_stat_category(keys.last()))
    }
}

/// Whether some tier is 1 or 8.
pub open spec fn spec_has_extreme(tiers: Seq<int>) -> bool {
    exists|i: int| 0 <= i < tiers.len() && (tiers[i] == 1 || tiers[i] == 8)
}

/// The last position `j <= from` with the same key as position `i`, or -1.
pub open spec fn spec_prev_same(keys: Seq<Seq<char>>, i: int, from: int) -> int
    decreases from + 1,
{
    if from < 0 {
        -1
    } else if keys[from] == keys[i] {
        from
    } else {
        spec_prev_same(keys, i, from - 1)
    }
}

/// Over the positions below `n`, the numbers of repeats of a stat at the same tier, at an
/// adjacent tier, and further away, each repeat compared with the stat's previous tier.
pub open spec fn spec_tier_moves(keys: Seq<Seq<char>>, tiers: Seq<int>, n: int) -> (nat, nat, nat)
    decreases n,
{
    if n <= 0 {
        (0, 0, 0)
    } else {
        let prev = spec_tier_moves(keys, tiers, n - 1);
        let j = spec_prev_same(keys, n - 1, n - 2);
        if j < 0 {
            prev
        } else {
            let d = tiers[n - 1] - tiers[j];
            if d == 0 {
                (prev.0 + 1, prev.1, prev.2)
            } else if d == 1 || d == -1 {
                (prev.0, prev.1 + 1, prev.2)
            } else {
                (prev.0, prev.1, prev.2 + 1)
            }
        }
    }
}

/// The tier signal: an extreme tier among the last six events, or mostly jumps among the
/// last 24, gives `"jump_or_extreme"`; otherwise `"step"` or `"stable"`.
pub open spec fn spec_tier_signal(keys: Seq<Seq<char>>, tiers: Seq<int>) -> Seq<char> {
    if spec_has_extreme(spec_recent(tiers, 6)) {
        "jump_or_extreme"@
    } else {
        let w = spec_recent(keys, 24);
        let t = spec_recent(tiers, 24);
        let m = spec_tier_moves(w, t, w.len() as int);
        if m.2 > m.1 && m.2 > m.0 {
            "jump_or_extreme"@
        } else if m.1 > m.0 {
            "step"@
        } else {
            "stable"@
        }
    }
}

/// `"low"` for at most two active stats, `"mid"` for at most four, else `"high"`.
pub open spec fn spec_active_bucket(n: int) -> Seq<char> {
    if n <= 2 {
        "low"@
    } else if n <= 4 {
        "mid"@
    } else {
        "high"@
    }
}

/// `"double"`, `"single"` or `"none"` by the number of distinct crit stats.
pub open spec fn spec_crit_signal(n: int) -> Seq<char> {
    if n >= 2 {
        "double"@
    } else if n == 1 {
        "single"@
    } else {
        "none"@
    }
}

proof fn lemma_zone_labels_not_mixed()
    ensures
        forall|z: int| 0 <= z < 6 ==> spec_zone_labels()[z] != "mixed"@,
{
    reveal_strlit("mixed");
    reveal_strlit("攻防区");
    reveal_strlit("攻生区");
    reveal_strlit("防生区");
    reveal_strlit("伤害加成区");
    reveal_strlit("共鸣区");
    reveal_strlit("爆区");
    assert forall|z: int| 0 <= z < 6 implies spec_zone_labels()[z] != "mixed"@ by {
        assert(spec_zone_labels()[z][0] != "mixed"@[0]);
    }
}

/// The stat keys of the events.
fn keys_of(events: &[PatternEventLite]) -> (r: Vec<String>)
    ensures
        r.deep_view() == spec_keys(events@),
{
    let mut out: Vec<String> = Vec::new();
    let mut i: usize = 0;
    while i < events.len()
        invariant
            i <= events.len(),
            out.len() == i,
            forall|j: int| 0 <= j < i ==> out@[j]@ == events@[j].stat_key@,
        decreases events.len() - i,
    {
        out.push(events[i].stat_key.clone());
        i = i + 1;
    }
    assert(out.deep_view() =~= spec_keys(events@));
    out
}

/// The number of distinct keys in `keys[start..]`.
fn distinct_count(keys: &Vec<String>, start: usize) -> (r: usize)
    requires
        start <= keys.len(),
    ensures
        r == spec_seen(keys.deep_view().subrange(start as int, keys.len() as int)).len(),
        r <= keys.len() - start,
{
    let ghost k = keys.deep_view();
    let mut seen: Vec<String> = Vec::new();
    let mut i: usize = start;
    while i < keys.len()
        invariant
            k == keys.deep_view(),
            start <= i <= keys.len(),
            seen.deep_view() == spec_seen(k.subrange(start as int, i as int)),
        decreases keys.len() - i,
    {
        let ghost q = k.subrange(start as int, i as int + 1);
        assert(q.drop_last() =~= k.subrange(start as int, i as int));
        assert(q.last() == k[i as int]);
        match find_key(&seen, &keys[i]) {
            Some(_) => {
                assert(spec_seen(q.drop_last()).contains(q.last()));
            },
            None => {
                seen.push(keys[i].clone());
                assert(seen.deep_view() =~= spec_seen(q.drop_last()).push(q.last()));
            },
        }
        i = i + 1;
    }
    proof {
        lemma_seen_covers(k.subrange(start as int, keys.len() as int));
    }
    seen.len()
}

/// The number of keys in `keys[start..]` whose category zone `z` covers.
fn zone_hits(keys: &Vec<String>, start: usize, z: usize) -> (r: usize)
    requires
        start <= keys.len(),
        z < 6,
    ensures
        r == spec_zone_hits(keys.deep_view().subrange(start as int, keys.len() as int), z as int),
        r <= keys.len() - start,
{
    let ghost k = keys.deep_view();
    let mut count: usize = 0;
    let mut i: usize = start;
    while i < keys.len()
        invariant
            k == keys.deep_view(),
            start <= i <= keys.len(),
            z < 6,
            count <= i - start,
            count == spec_zone_hits(k.subrange(start as int, i as int), z as int),
        decreases keys.len() - i,
    {
        let ghost q = k.subrange(start as int, i as int + 1);
        assert(q.drop_last() =~= k.subrange(start as int, i as int));
        assert(q.last() == k[i as int]);
        let cat = stat_category(keys[i].as_str());
        if crate::category::zone_covers(z, cat) {
            count = count + 1;
        }
        i = i + 1;
    }
    count
}

/// The first zone with the most hits in `keys[start..]`, as `(zone or -1, hits)`.
fn best_zone(keys: &Vec<String>, start: usize) -> (r: (i64, usize))
    requires
        start <= keys.len(),
    ensures
        (r.0 as int, r.1 as nat) == spec_best_zone(
            keys.deep_view().subrange(start as int, keys.len() as int),
            6,
        ),
        r.1 <= keys.len() - start,
        -1 <= r.0 < 6,
{
    let ghost w = keys.deep_view().subrange(start as int, keys.len() as int);
    let mut best: i64 = -1;
    let mut best_count: usize = 0;
    let mut z: usize = 0;
    while z < 6
        invariant
            w == keys.deep_view().subrange(start as int, keys.len() as int),
            start <= keys.len(),
            z <= 6,
            (best as int, best_count as nat) == spec_best_zone(w, z as int),
            best_count <= keys.len() - start,
            -1 <= best < 6,
        decreases 6 - z,
    {
        let c = zone_hits(keys, start, z);
        if c > best_count {
            best = z as i64;
            best_count = c;
        }
        z = z + 1;
    }
    (best, best_count)
}

/// How many keys at the end of `keys` lie outside zone `label`.
fn out_of_zone_run(keys: &Vec<String>, label: &str) -> (r: usize)
    ensures
        r == spec_out_of_zone_run(keys.deep_view(), label@),
        r <= keys.len(),
{
    let ghost k = keys.deep_view();
    assert(k.take(k.len() as int) =~= k);
    let mut count: usize = 0;
    let mut i: usize = keys.len();
    while i > 0
        invariant
            k == keys.deep_view(),
            i <= keys.len(),
            count == keys.len() - i,
            spec_out_of_zone_run(k, label@) == count + spec_out_of_zone_run(k.take(i as int), label@),
        decreases i,
    {
        let ghost q = k.take(i as int);
        assert(q.drop_last() =~= k.take(i as int - 1));
        assert(q.last() == k[i as int - 1]);
        if stat_matches_zone(keys[i - 1].as_str(), label) {
            return count;
        }
        count = count + 1;
        i = i - 1;
    }
    count
}

/// The keys of `keys[start..]` whose category is `"crit"`.
fn crit_keys(keys: &Vec<String>, start: usize) -> (r: Vec<String>)
    requires
        start <= keys.len(),
    ensures
        r.deep_view() == spec_crit_keys(keys.deep_view().subrange(start as int, keys.len() as int)),
{
    let ghost k = keys.deep_view();
    let mut out: Vec<String> = Vec::new();
    let mut i: usize = start;
    while i < keys.len()
        invariant
            k == keys.deep_view(),
            start <= i <= keys.len(),
            out.deep_view() == spec_crit_keys(k.subrange(start as int, i as int)),
        decreases keys.len() - i,
    {
        let ghost q = k.subrange(start as int, i as int + 1);
        assert(q.drop_last() =~= k.subrange(start as int, i as int));
        assert(q.last() == k[i as int]);
        let cat = stat_category(keys[i].as_str());
        if same_text(cat, "crit") {
            out.push(keys[i].clone());
            assert(out.deep_view() =~= spec_crit_keys(q.drop_last()).push(q.last()));
        }
        i = i + 1;
    }
    out
}

fn category_name(c: usize) -> (r: &'static str)
    requires
        c < 7,
    ensures
        r@ == spec_category_names()[c as int],
{
    if c == 0 {
        "atk"
    } else if c == 1 {
        "crit"
    } else if c == 2 {
        "def"
    } else if c == 3 {
        "dmg_bonus"
    } else if c == 4 {
        "hp"
    } else if c == 5 {
        "unknown"
    } else {
        "utility"
    }
}

/// The number of keys of `keys[start..]` in category `c`.
fn category_hits(keys: &Vec<String>, start: usize, c: usize) -> (r: usize)
    requires
        start <= keys.len(),
        c < 7,
    ensures
        r == spec_category_hits(keys.deep_view().subrange(start as int, keys.len() as int), c as int),
        r <= keys.len() - start,
{
    let ghost k = keys.deep_view();
    let name = category_name(c);
    let mut count: usize = 0;
    let mut i: usize = start;
    while i < keys.len()
        invariant
            k == keys.deep_view(),
            start <= i <= keys.len(),
            c < 7,
            name@ == spec_category_names()[c as int],
            count <= i - start,
            count == spec_category_hits(k.subrange(start as int, i as int), c as int),
        decreases keys.len() - i,
    {
        let ghost q = k.subrange(start as int, i as int + 1);
        assert(q.drop_last() =~= k.subrange(start as int, i as int));
        assert(q.last() == k[i as int]);
        let cat = stat_category(keys[i].as_str());
        if same_text(cat, name) {
            count = count + 1;
        }
        i = i + 1;
    }
    count
}

/// The dominant category of `keys[start..]` and its number of hits.
fn dominant(keys: &Vec<String>, start: usize) -> (r: (String, usize))
    requires
        start <= keys.len(),
    ensures
        r.0@ == spec_dominant_name(keys.deep_view().subrange(start as int, keys.len() as int)),
        r.1 == spec_dominant(keys.deep_view().subrange(start as int, keys.len() as int), 7).1,
        r.1 <= keys.len() - start,
{
    let ghost w = keys.deep_view().subrange(start as int, keys.len() as int);
    let mut best: i64 = -1;
    let mut best_count: usize = 0;
    let mut c: usize = 0;
    while c < 7
        invariant
            w == keys.deep_view().subrange(start as int, keys.len() as int),
            start <= keys.len(),
            c <= 7,
            (best as int, best_count as nat) == spec_dominant(w, c as int),
            best_count <= keys.len() - start,
            -1 <= best < 7,
        decreases 7 - c,
    {
        let n = category_hits(keys, start, c);
        if n > 0 && n >= best_count {
            best = c as i64;
            best_count = n;
        }
        c = c + 1;
    }
    if best < 0 {
        ("mixed".to_owned(), best_count)
    } else {
        (category_name(best as usize).to_owned(), best_count)
    }
}

/// The length of the run of equal categories that ends `keys`.
fn tail_run(keys: &Vec<String>) -> (r: usize)
    ensures
        r == spec_tail_run(keys.deep_view()),
        r <= keys.len(),
{
    let ghost k = keys.deep_view();
    assert(k.take(k.len() as int) =~= k);
    if keys.len() == 0 {
        return 0;
    }
    let last_cat = stat_category(keys[keys.len() - 1].as_str());
    let mut count: usize = 0;
    let mut i: usize = keys.len();
    while i > 0
        invariant
            k == keys.deep_view(),
            k.len() > 0,
            last_cat@ == spec_stat_category(k.last()),
            i <= keys.len(),
            count == keys.len() - i,
            spec_category_run(k, last_cat@) == count + spec_category_run(k.take(i as int), last_cat@),
        decreases i,
    {
        let ghost q = k.take(i as int);
        assert(q.drop_last() =~= k.take(i as int - 1));
        assert(q.last() == k[i as int - 1]);
        let cat = stat_category(keys[i - 1].as_str());
        if !same_text(cat, last_cat) {
            return count;
        }
        count = count + 1;
        i = i - 1;
    }
    assert(k.take(0) =~= Seq::<Seq<char>>::empty());
    count
}

/// Whether one of the tiers of `events[start..]` is 1 or 8.
fn has_extreme(events: &[PatternEventLite], start: usize) -> (r: bool)
    requires
        start <= events.len(),
    ensures
        r == spec_has_extreme(spec_tiers(events@).subrange(start as int, events.len() as int)),
{
    let ghost t = spec_tiers(events@).subrange(start as int, events.len() as int);
    let mut i: usize = start;
    while i < events.len()
        invariant
            start <= i <= events.len(),
            t == spec_tiers(events@).subrange(start as int, events.len() as int),
            forall|j: int| 0 <= j < i - start ==> !(t[j] == 1 || t[j] == 8),
        decreases events.len() - i,
    {
        let tier = events[i].tier_index;
        assert(t[i - start] == tier);
        if tier == 1 || tier == 8 {
            return true;
        }
        i = i + 1;
    }
    false
}

/// The last position `j < i` of `keys[start..]` (relative to `start`) whose key equals the
/// key at relative position `i`, or -1.
fn prev_same(keys: &Vec<String>, start: usize, i: usize) -> (r: Option<usize>)
    requires
        start <= keys.len(),
        i < keys.len() - start,
    ensures
        r matches Some(j) ==> j < i && j == spec_prev_same(
            keys.deep_view().subrange(start as int, keys.len() as int),
            i as int,
            i - 1,
        ),
        r is None ==> spec_prev_same(
            keys.deep_view().subrange(start as int, keys.len() as int),
            i as int,
            i - 1,
        ) == -1,
{
    let ghost w = keys.deep_view().subrange(start as int, keys.len() as int);
    let mut j: usize = i;
    while j > 0
        invariant
            w == keys.deep_view().subrange(start as int, keys.len() as int),
            start <= keys.len(),
            i < keys.len() - start,
            j <= i,
            spec_prev_same(w, i as int, i - 1) == spec_prev_same(w, i as int, j - 1),
        decreases j,
    {
        assert(w[j - 1] == keys.deep_view()[start + j - 1]);
        assert(w[i as int] == keys.deep_view()[start + i]);
        if keys[start + j - 1] == keys[start + i] {
            return Some(j - 1);
        }
        j = j - 1;
    }
    None
}

/// Counts of same-tier, adjacent-tier and further repeats in `events[start..]`.
fn tier_moves(events: &[PatternEventLite], keys: &Vec<String>, start: usize) -> (r: (usize, usize, usize))
    requires
        start <= events.len(),
        keys.deep_view() == spec_keys(events@),
    ensures
        (r.0 as nat, r.1 as nat, r.2 as nat) == spec_tier_moves(
            keys.deep_view().subrange(start as int, keys.len() as int),
            spec_tiers(events@).subrange(start as int, events.len() as int),
            events.len() - start,
        ),
{
    let ghost w = keys.deep_view().subrange(start as int, keys.len() as int);
    let ghost t = spec_tiers(events@).subrange(start as int, events.len() as int);
    assert(keys.deep_view().len() == keys.len());
    let n = events.len() - start;
    let mut stable: usize = 0;
    let mut step: usize = 0;
    let mut jump: usize = 0;
    let mut i: usize = 0;
    while i < n
        invariant
            n == events.len() - start,
            keys.len() == events.len(),
            w == keys.deep_view().subrange(start as int, keys.len() as int),
            t == spec_tiers(events@).subrange(start as int, events.len() as int),
            i <= n,
            stable + step + jump <= i,
            (stable as nat, step as nat, jump as nat) == spec_tier_moves(w, t, i as int),
        decreases n - i,
    {
        let j = prev_same(keys, start, i);
        if let Some(ju) = j {
            assert(t[i as int] == events[start + i].tier_index);
            assert(t[ju as int] == events[start + ju].tier_index);
            let d: i128 = events[start + i].tier_index as i128 - events[start + ju].tier_index as i128;
            if d == 0 {
                stable = stable + 1;
            } else if d == 1 || d == -1 {
                step = step + 1;
            } else {
                jump = jump + 1;
            }
        }
        i = i + 1;
    }
    (stable, step, jump)
}

/// The label and integer features of the state reached by `events`.
pub fn compute_sequence_state_core(events: &[PatternEventLite]) -> (r: SequenceStateCore)
    requires
        events.len() <= i64::MAX,
    ensures
        r.active_stat_count_recent8 == spec_seen(spec_recent(spec_keys(events@), 8)).len(),
        r.active_stat_count_recent12 == spec_seen(spec_recent(spec_keys(events@), 12)).len(),
        r.active_stat_bucket@ == spec_active_bucket(r.active_stat_count_recent8 as int),
        r.zone_candidate@ == spec_zone_candidate(spec_recent(spec_keys(events@), 8)),
        r.zone_hits_recent8 == spec_best_zone(spec_recent(spec_keys(events@), 8), 6).1,
        r.recent8_len == spec_recent(spec_keys(events@), 8).len(),
        r.out_of_zone_streak == (if r.zone_candidate@ == "mixed"@ {
            0
        } else {
            spec_out_of_zone_run(spec_keys(events@), r.zone_candidate@) as int
        }),
        r.crit_signal@ == spec_crit_signal(
            spec_seen(spec_crit_keys(spec_recent(spec_keys(events@), 8))).len() as int,
        ),
        r.tier_signal@ == spec_tier_signal(spec_keys(events@), spec_tiers(events@)),
        r.dominant_category_recent4@ == spec_dominant_name(spec_recent(spec_keys(events@), 4)),
        r.dominant_count_recent4 == spec_dominant(spec_recent(spec_keys(events@), 4), 7).1,
        r.recent4_len == spec_recent(spec_keys(events@), 4).len(),
        r.dominant_category_recent8@ == spec_dominant_name(spec_recent(spec_keys(events@), 8)),
        r.dominant_count_recent8 == spec_dominant(spec_recent(spec_keys(events@), 8), 7).1,
        r.current_category_run_len == spec_tail_run(spec_keys(events@)),
{
    let keys = keys_of(events);
    let ghost k = keys.deep_view();
    let n = keys.len();
    let start8: usize = if n > 8 { n - 8 } else { 0 };
    let start12: usize = if n > 12 { n - 12 } else { 0 };
    let start4: usize = if n > 4 { n - 4 } else { 0 };
    let start6: usize = if n > 6 { n - 6 } else { 0 };
    let start24: usize = if n > 24 { n - 24 } else { 0 };
    assert(spec_recent(k, 8) =~= k.subrange(start8 as int, n as int));
    assert(spec_recent(k, 12) =~= k.subrange(start12 as int, n as int));
    assert(spec_recent(k, 4) =~= k.subrange(start4 as int, n as int));
    assert(spec_recent(k, 24) =~= k.subrange(start24 as int, n as int));
    assert(spec_recent(spec_tiers(events@), 6) =~= spec_tiers(events@).subrange(start6 as int, n as int));
    assert(spec_recent(spec_tiers(events@), 24) =~= spec_tiers(events@).subrange(start24 as int, n as int));

    let active8 = distinct_count(&keys, start8);
    let active12 = distinct_count(&keys, start12);
    let bucket = if active8 <= 2 {
        "low"
    } else if active8 <= 4 {
        "mid"
    } else {
        "high"
    };

    let recent8_len = n - start8;
    let (best, best_count) = best_zone(&keys, start8);
    let zone_candidate: &str = if best < 0 || 2 * best_count < recent8_len {
        "mixed"
    } else {
        crate::category::zone_label(best as usize)
    };
    let out_of_zone = if best < 0 || 2 * best_count < recent8_len {
        0
    } else {
        out_of_zone_run(&keys, zone_candidate)
    };

    let crit = crit_keys(&keys, start8);
    let crit_count = distinct_count(&crit, 0);
    assert(crit.deep_view().subrange(0, crit.len() as int) =~= crit.deep_view());
    let crit_signal = if crit_count >= 2 {
        "double"
    } else if crit_count == 1 {
        "single"
    } else {
        "none"
    };

    let (dom4, dom4_count) = dominant(&keys, start4);
    let (dom8, dom8_count) = dominant(&keys, start8);
    let run = tail_run(&keys);

    let tier_signal = if has_extreme(events, start6) {
        "jump_or_extreme"
    } else {
        let (stable, step, jump) = tier_moves(events, &keys, start24);
        if jump > step && jump > stable {
            "jump_or_extreme"
        } else if step > stable {
            "step"
        } else {
            "stable"
        }
    };

    proof {
        lemma_seen_covers(k.subrange(start8 as int, n as int));
        lemma_zone_labels_not_mixed();
    }
    SequenceStateCore {
        active_stat_count_recent8: active8 as i64,
        active_stat_count_recent12: active12 as i64,
        active_stat_bucket: bucket.to_owned(),
        zone_candidate: zone_candidate.to_owned(),
        zone_hits_recent8: best_count as i64,
        recent8_len: recent8_len as i64,
        out_of_zone_streak: out_of_zone as i64,
        crit_signal: crit_signal.to_owned(),
        tier_signal: tier_signal.to_owned(),
        dominant_category_recent4: dom4,
        dominant_count_recent4: dom4_count as i64,
        recent4_len: (n - start4) as i64,
        dominant_category_recent8: dom8,
        dominant_count_recent8: dom8_count as i64,
        current_category_run_len: run as i64,
    }
}

/// One event of the global history used for back-testing.
#[derive(Clone, Debug, PartialEq, Eq)]
pub struct BacktestEventLite {
    pub echo_id: String,
    pub stat_key: String,
    pub tier_index: i64,
    pub slot_no: i64,
    pub analysis_seq: i64,
}

/// Whether one of the `horizon` events after position `idx` has category `target`.
pub open spec fn spec_future_has_category(
    keys: Seq<Seq<char>>,
    idx: int,
    horizon: int,
    target: Seq<char>,
) -> bool {
    exists|j: int| idx < j < keys.len() && j <= idx + horizon && spec_stat_category(keys[j]) == target
}

/// Whether one of the next `horizon` events after `events[idx]` belongs to `target_category`.
pub fn future_has_category(
    events: &[BacktestEventLite],
    idx: usize,
    horizon: usize,
    target_category: &str,
) -> (r: bool)
    requires
        idx < events.len(),
    ensures
        r == spec_future_has_category(
            events@.map_values(|e: BacktestEventLite| e.stat_key@),
            idx as int,
            horizon as int,
            target_category@,
        ),
{
    let ghost k = events@.map_values(|e: BacktestEventLite| e.stat_key@);
    let end: usize = if horizon < events.len() - idx - 1 { idx + 1 + horizon } else { events.len() };
    let mut j: usize = idx + 1;
    while j < end
        invariant
            idx < events.len(),
            idx + 1 <= j <= end,
            end <= events.len(),
            end <= idx + 1 + horizon,
            end < events.len() ==> end == idx + 1 + horizon,
            k == events@.map_values(|e: BacktestEventLite| e.stat_key@),
            forall|m: int| idx < m < j ==> spec_stat_category(k[m]) != target_category@,
        decreases end - j,
    {
        let cat = stat_category(events[j].stat_key.as_str());
        if same_text(cat, target_category) {
            assert(spec_stat_category(k[j as int]) == target_category@);
            return true;
        }
        j = j + 1;
    }
    false
}

/// The triggers active at the end of `events`, as `(key, label)` pairs in this order:
/// an extreme last tier; the last stat compared with the one before it (the event
/// itself when it is the only one) by tier move and by category; few active stats among
/// the last eight; a zone that holds at least half of the last eight.
pub open spec fn spec_interval_triggers(events: Seq<PatternEventLite>) -> Seq<(Seq<char>, Seq<char>)> {
    if events.len() == 0 {
        Seq::empty()
    } else {
        let last = events.last();
        let prev = if events.len() >= 2 { events[events.len() - 2] } else { events[0] };
        let extreme: Seq<(Seq<char>, Seq<char>)> = if last.tier_index == 1 || last.tier_index == 8 {
            seq![("last_extreme"@, "极值档触发"@)]
        } else {
            Seq::empty()
        };
        let d = prev.tier_index - last.tier_index;
        let same_stat: Seq<(Seq<char>, Seq<char>)> = if prev.stat_key@ == last.stat_key@ {
            if d == 0 {
                seq![("same_stat_stop"@, "同词条停档"@)]
            } else if d == 1 || d == -1 {
                seq![("same_stat_step"@, "同词条连档"@)]
            } else {
                seq![("same_stat_jump"@, "同词条跳档"@)]
            }
        } else {
            Seq::empty()
        };
        let cat = spec_stat_category(last.stat_key@);
        let same_cat: Seq<(Seq<char>, Seq<char>)> = if spec_stat_category(prev.stat_key@) == cat {
            seq![("same_cat2_"@ + cat, "连续同类 "@ + cat)]
        } else {
            Seq::empty()
        };
        let low: Seq<(Seq<char>, Seq<char>)> = if spec_seen(spec_recent(spec_keys(events), 8)).len() <= 5 {
            seq![("low_active"@, "低活跃窗口"@)]
        } else {
            Seq::empty()
        };
        let zone = spec_zone_candidate(spec_recent(spec_keys(events), 8));
        let zone_part: Seq<(Seq<char>, Seq<char>)> = if zone != "mixed"@ {
            seq![("zone_"@ + zone, zone + " 候选"@)]
        } else {
            Seq::empty()
        };
        extreme + same_stat + same_cat + low + zone_part
    }
}

/// The view of a list of key/label pairs.
pub open spec fn spec_pairs_view(v: Seq<(String, String)>) -> Seq<(Seq<char>, Seq<char>)> {
    v.map_values(|p: (String, String)| (p.0@, p.1@))
}

fn concat2(a: &str, b: &str) -> (r: String)
    ensures
        r@ == a@ + b@,
{
    let mut s: String = a.to_owned();
    s.append(b);
    s
}

/// The triggers that describe the end of `events` (see `spec_interval_triggers`).
pub fn interval_trigger_keys(events: &[PatternEventLite]) -> (r: Vec<(String, String)>)
    requires
        events.len() <= i64::MAX,
    ensures
        spec_pairs_view(r@) == spec_interval_triggers(events@),
{
    let mut triggers: Vec<(String, String)> = Vec::new();
    if events.len() == 0 {
        assert(spec_pairs_view(triggers@) =~= spec_interval_triggers(events@));
        return triggers;
    }
    let ghost ev = events@;
    let last = &events[events.len() - 1];
    let prev = if events.len() >= 2 { &events[events.len() - 2] } else { &events[0] };
    let ghost part1 = spec_pairs_view(triggers@);
    if last.tier_index == 1 || last.tier_index == 8 {
        triggers.push(("last_extreme".to_owned(), "极值档触发".to_owned()));
    }
    let ghost after1 = spec_pairs_view(triggers@);
    if same_text(prev.stat_key.as_str(), last.stat_key.as_str()) {
        let d: i128 = prev.tier_index as i128 - last.tier_index as i128;
        if d == 0 {
            triggers.push(("same_stat_stop".to_owned(), "同词条停档".to_owned()));
        } else if d == 1 || d == -1 {
            triggers.push(("same_stat_step".to_owned(), "同词条连档".to_owned()));
        } else {
            triggers.push(("same_stat_jump".to_owned(), "同词条跳档".to_owned()));
        }
    }
    let ghost after2 = spec_pairs_view(triggers@);
    let last_category = stat_category(last.stat_key.as_str());
    let prev_category = stat_category(prev.stat_key.as_str());
    if same_text(prev_category, last_category) {
        triggers.push((concat2("same_cat2_", last_category), concat2("连续同类 ", last_category)));
    }
    let ghost after3 = spec_pairs_view(triggers@);
    let core = compute_sequence_state_core(events);
    if core.active_stat_count_recent8 <= 5 {
        triggers.push(("low_active".to_owned(), "低活跃窗口".to_owned()));
    }
    let ghost after4 = spec_pairs_view(triggers@);
    if !same_text(core.zone_candidate.as_str(), "mixed") {
        triggers.push((concat2("zone_", core.zone_candidate.as_str()), concat2(core.zone_candidate.as_str(), " 候选")));
    }
    assert(spec_pairs_view(triggers@) =~= spec_interval_triggers(events@));
    triggers
}

proof fn lemma_prev_same_bounds(keys: Seq<Seq<char>>, i: int, from: int)
    ensures
        -1 <= spec_prev_same(keys, i, from) <= (if from < 0 { -1 } else { from }),
    decreases from + 1,
{
    if from >= 0 {
        lemma_prev_same_bounds(keys, i, from - 1);
    }
}

/// How a repeat is classified: compared with the previous event of the same stat, a repeat
/// at the same tier is stable, one whose tier moved by exactly one (up or down) is a step,
/// and one that moved by two or more is a jump; an event whose stat did not occur before
/// changes no count.
pub proof fn law_tier_move_classes(keys: Seq<Seq<char>>, tiers: Seq<int>, n: int)
    requires
        0 <= n < keys.len(),
    ensures
        ({
            let before = spec_tier_moves(keys, tiers, n);
            let after = spec_tier_moves(keys, tiers, n + 1);
            let j = spec_prev_same(keys, n, n - 1);
            &&& j < 0 ==> after == before && forall|q: int| 0 <= q < n ==> keys[q] != keys[n]
            &&& j >= 0 ==> {
                &&& j < n && keys[j] == keys[n]
                &&& forall|q: int| j < q < n ==> keys[q] != keys[n]
                &&& tiers[n] == tiers[j] ==> after == (before.0 + 1, before.1, before.2)
                &&& (tiers[n] == tiers[j] + 1 || tiers[n] == tiers[j] - 1) ==> after == (before.0, before.1 + 1, before.2)
                &&& (tiers[n] >= tiers[j] + 2 || tiers[n] <= tiers[j] - 2) ==> after == (before.0, before.1, before.2 + 1)
            }
        }),
{
    lemma_prev_same_bounds(keys, n, n - 1);
    lemma_prev_same_last(keys, n, n - 1);
}

proof fn lemma_prev_same_last(keys: Seq<Seq<char>>, i: int, from: int)
    requires
        from < keys.len(),
        0 <= i < keys.len(),
    ensures
        spec_prev_same(keys, i, from) >= 0 ==> keys[spec_prev_same(keys, i, from)] == keys[i],
        forall|q: int| spec_prev_same(keys, i, from) < q <= from ==> keys[q] != keys[i],
    decreases from + 1,
{
    if from >= 0 {
        lemma_prev_same_last(keys, i, from - 1);
    }
}

/// Turning every tier upside down (negating it) leaves the numbers of stable, step and
/// jump repeats unchanged: a move is counted by its size, not its direction.
pub proof fn law_tier_moves_mirror(keys: Seq<Seq<char>>, tiers: Seq<int>, mirrored: Seq<int>, n: int)
    requires
        0 <= n <= keys.len(),
        tiers.len() == keys.len(),
        mirrored.len() == tiers.len(),
        forall|i: int| 0 <= i < tiers.len() ==> #[trigger] mirrored[i] == -tiers[i],
    ensures
        spec_tier_moves(keys, mirrored, n) == spec_tier_moves(keys, tiers, n),
    decreases n,
{
    if n > 0 {
        law_tier_moves_mirror(keys, tiers, mirrored, n - 1);
        lemma_prev_same_bounds(keys, n - 1, n - 2);
        let j = spec_prev_same(keys, n - 1, n - 2);
        if j >= 0 {
            assert(mirrored[n - 1] == -tiers[n - 1]);
            assert(mirrored[j] == -tiers[j]);
        }
    }
}

/// The tier signal: an extreme tier (1 or 8) among the last six events gives
/// `"jump_or_extreme"`; otherwise, over the last 24 events, more jumps than both steps and
/// stable repeats gives `"jump_or_extreme"`, else more steps than stable repeats gives
/// `"step"`, else `"stable"`.
pub proof fn law_tier_signal(keys: Seq<Seq<char>>, tiers: Seq<int>)
    ensures
        ({
            let sig = spec_tier_signal(keys, tiers);
            let w = spec_recent(keys, 24);
            let m = spec_tier_moves(w, spec_recent(tiers, 24), w.len() as int);
            let extreme = exists|i: int|
                0 <= i < tiers.len() && tiers.len() - 6 <= i && (tiers[i] == 1 || tiers[i] == 8);
            &&& extreme ==> sig == "jump_or_extreme"@
            &&& !extreme && m.2 > m.1 && m.2 > m.0 ==> sig == "jump_or_extreme"@
            &&& !extreme && !(m.2 > m.1 && m.2 > m.0) && m.1 > m.0 ==> sig == "step"@
            &&& !extreme && !(m.2 > m.1 && m.2 > m.0) && m.1 <= m.0 ==> sig == "stable"@
        }),
{
    let r = spec_recent(tiers, 6);
    let extreme = exists|i: int|
        0 <= i < tiers.len() && tiers.len() - 6 <= i && (tiers[i] == 1 || tiers[i] == 8);
    if extreme {
        let i = choose|i: int| 0 <= i < tiers.len() && tiers.len() - 6 <= i && (tiers[i] == 1 || tiers[i] == 8);
        let k = if tiers.len() > 6 { i - (tiers.len() - 6) } else { i };
        assert(r[k] == tiers[i]);
        assert(spec_has_extreme(r));
    } else {
        if spec_has_extreme(r) {
            let k = choose|k: int| 0 <= k < r.len() && (r[k] == 1 || r[k] == 8);
            let i = if tiers.len() > 6 { k + (tiers.len() - 6) } else { k };
            assert(tiers[i] == r[k]);
        }
    }
}

} // verus!
