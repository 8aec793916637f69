//! Prediction buckets: the keys under which per-bucket models are stored, the scopes
//! (3, 4 or 5 of the bucket's dimensions) they are looked up by, and the choice of the
//! most specific stored entry that has enough samples.
use vstd::prelude::*;
use vstd::string::*;
use crate::text::{same_text, spec_split, split_on};

verus! {

/// The five dimensions that a prediction is bucketed by.
#[derive(Clone, Debug, PartialEq, Eq)]
pub struct PredictionBucket {
    pub sample_depth_bucket: String,
    pub markov_hit_bucket: String,
    pub motif_hit_bucket: String,
    pub active_stat_bucket: String,
    pub tier_signal_bucket: String,
}

/// Which dimensions of a bucket a key covers.
#[derive(Clone, Copy, Debug, PartialEq, Eq, PartialOrd, Ord)]
pub enum BucketScope {
    Core3d,
    Active4d,
    Context4d,
    Full5d,
}

/// What the blender optimises for in a bucket.
#[derive(Clone, Copy, Debug, PartialEq, Eq)]
pub enum V2BlendObjective {
    Calibrated,
    Top1,
}

/// Which expert a bucket's champion route hands the prediction to.
#[derive(Clone, Copy, Debug, PartialEq, Eq)]
pub enum BucketChampionRoute {
    Blend,
    PreferMarkov,
    PreferAutoCycle,
}

/// `a|b|c|d|e` over the five dimensions.
pub open spec fn spec_key(b: PredictionBucket) -> Seq<char> {
    b.sample_depth_bucket@ + "|"@ + b.markov_hit_bucket@ + "|"@ + b.motif_hit_bucket@ + "|"@
        + b.active_stat_bucket@ + "|"@ + b.tier_signal_bucket@
}

/// The key of a bucket under a scope.
pub open spec fn spec_scoped_key(b: PredictionBucket, scope: BucketScope) -> Seq<char> {
    match scope {
        BucketScope::Full5d => spec_key(b),
        BucketScope::Active4d => "4a:"@ + b.sample_depth_bucket@ + "|"@ + b.markov_hit_bucket@ + "|"@
            + b.motif_hit_bucket@ + "|"@ + b.active_stat_bucket@,
        BucketScope::Context4d => "4c:"@ + b.sample_depth_bucket@ + "|"@ + b.markov_hit_bucket@ + "|"@
            + b.motif_hit_bucket@ + "|"@ + b.tier_signal_bucket@,
        BucketScope::Core3d => "3:"@ + b.sample_depth_bucket@ + "|"@ + b.markov_hit_bucket@ + "|"@
            + b.motif_hit_bucket@,
    }
}

/// How many dimensions a scope covers.
pub open spec fn spec_rank(scope: BucketScope) -> int {
    match scope {
        BucketScope::Core3d => 3,
        BucketScope::Active4d | BucketScope::Context4d => 4,
        BucketScope::Full5d => 5,
    }
}

impl PredictionBucket {
    /// The full five-dimension key, `a|b|c|d|e`.
    pub fn key(&self) -> (r: String)
        ensures
            r@ == spec_key(*self),
    {
        let mut s = self.sample_depth_bucket.clone();
        s.append("|");
        s.append(self.markov_hit_bucket.as_str());
        s.append("|");
        s.append(self.motif_hit_bucket.as_str());
        s.append("|");
        s.append(self.active_stat_bucket.as_str());
        s.append("|");
        s.append(self.tier_signal_bucket.as_str());
        s
    }

    /// The key under a scope: the full key, or a tagged key of 4 or 3 dimensions.
    pub fn scoped_key(&self, scope: BucketScope) -> (r: String)
        ensures
            r@ == spec_scoped_key(*self, scope),
    {
        match scope {
            BucketScope::Full5d => self.key(),
            BucketScope::Active4d => {
                let mut s = "4a:".to_owned();
                s.append(self.sample_depth_bucket.as_str());
                s.append("|");
                s.append(self.markov_hit_bucket.as_str());
                s.append("|");
                s.append(self.motif_hit_bucket.as_str());
                s.append("|");
                s.append(self.active_stat_bucket.as_str());
                s
            },
            BucketScope::Context4d => {
                let mut s = "4c:".to_owned();
                s.append(self.sample_depth_bucket.as_str());
                s.append("|");
                s.append(self.markov_hit_bucket.as_str());
                s.append("|");
                s.append(self.motif_hit_bucket.as_str());
                s.append("|");
                s.append(self.tier_signal_bucket.as_str());
                s
            },
            BucketScope::Core3d => {
                let mut s = "3:".to_owned();
                s.append(self.sample_depth_bucket.as_str());
                s.append("|");
                s.append(self.markov_hit_bucket.as_str());
                s.append("|");
                s.append(self.motif_hit_bucket.as_str());
                s
            },
        }
    }
}

impl BucketScope {
    /// The scopes in the order models are trained: most specific first.
    pub fn training_scopes() -> (r: [BucketScope; 4])
        ensures
            r@ == seq![BucketScope::Full5d, BucketScope::Active4d, BucketScope::Context4d, BucketScope::Core3d],
    {
        [BucketScope::Full5d, BucketScope::Active4d, BucketScope::Context4d, BucketScope::Core3d]
    }

    /// The scopes in the order weights are blended: least specific first.
    pub fn blend_scopes() -> (r: [BucketScope; 4])
        ensures
            r@ == seq![BucketScope::Core3d, BucketScope::Active4d, BucketScope::Context4d, BucketScope::Full5d],
    {
        [BucketScope::Core3d, BucketScope::Active4d, BucketScope::Context4d, BucketScope::Full5d]
    }

    /// The scopes in the order objectives and routes are looked up: most specific first.
    pub fn objective_scopes() -> (r: [BucketScope; 4])
        ensures
            r@ == seq![BucketScope::Full5d, BucketScope::Active4d, BucketScope::Context4d, BucketScope::Core3d],
    {
        [BucketScope::Full5d, BucketScope::Active4d, BucketScope::Context4d, BucketScope::Core3d]
    }

    /// The label of the weights source for this scope.
    pub fn source_label(self) -> (r: &'static str)
        ensures
            r@ == (match self {
                BucketScope::Core3d => "bucketed3d"@,
                BucketScope::Active4d | BucketScope::Context4d => "bucketed4d"@,
                BucketScope::Full5d => "bucketed5d"@,
            }),
    {
        match self {
            BucketScope::Core3d => "bucketed3d",
            BucketScope::Active4d | BucketScope::Context4d => "bucketed4d",
            BucketScope::Full5d => "bucketed5d",
        }
    }

    /// How many dimensions the scope covers.
    pub fn specificity_rank(self) -> (r: usize)
        ensures
            r == spec_rank(self),
    {
        match self {
            BucketScope::Core3d => 3,
            BucketScope::Active4d | BucketScope::Context4d => 4,
            BucketScope::Full5d => 5,
        }
    }

    /// The short label of the objective or route source for this scope.
    pub fn objective_source_label(self) -> (r: &'static str)
        ensures
            r@ == spec_objective_source(self),
    {
        match self {
            BucketScope::Core3d => "3d",
            BucketScope::Active4d | BucketScope::Context4d => "4d",
            BucketScope::Full5d => "5d",
        }
    }
}

/// `3d`, `4d` or `5d`.
pub open spec fn spec_objective_source(scope: BucketScope) -> Seq<char> {
    match scope {
        BucketScope::Core3d => "3d"@,
        BucketScope::Active4d | BucketScope::Context4d => "4d"@,
        BucketScope::Full5d => "5d"@,
    }
}

impl V2BlendObjective {
    /// The label shown for the objective.
    pub fn short_label(self) -> (r: &'static str)
        ensures
            r@ == (match self {
                V2BlendObjective::Calibrated => "校准优先"@,
                V2BlendObjective::Top1 => "Top1优先"@,
            }),
    {
        match self {
            V2BlendObjective::Calibrated => "校准优先",
            V2BlendObjective::Top1 => "Top1优先",
        }
    }
}

impl BucketChampionRoute {
    /// The label shown for the route.
    pub fn short_label(self) -> (r: &'static str)
        ensures
            r@ == (match self {
                BucketChampionRoute::Blend => "混合器"@,
                BucketChampionRoute::PreferMarkov => "Markov"@,
                BucketChampionRoute::PreferAutoCycle => "AutoCycle"@,
            }),
    {
        match self {
            BucketChampionRoute::Blend => "混合器",
            BucketChampionRoute::PreferMarkov => "Markov",
            BucketChampionRoute::PreferAutoCycle => "AutoCycle",
        }
    }

    /// The token recorded as the source of a routed prediction.
    pub fn source_token(self) -> (r: &'static str)
        ensures
            r@ == (match self {
                BucketChampionRoute::Blend => "blend"@,
                BucketChampionRoute::PreferMarkov => "markov"@,
                BucketChampionRoute::PreferAutoCycle => "auto_cycle"@,
            }),
    {
        match self {
            BucketChampionRoute::Blend => "blend",
            BucketChampionRoute::PreferMarkov => "markov",
            BucketChampionRoute::PreferAutoCycle => "auto_cycle",
        }
    }
}

/// The fewest samples a bucket needs before its own fit is used: half the configured
/// minimum, and never fewer than 4.
pub fn bucket_fit_min_samples(bucket_min_samples: usize) -> (r: usize)
    ensures
        r == (if bucket_min_samples / 2 > 4 { bucket_min_samples / 2 } else { 4 }),
{
    let half = bucket_min_samples / 2;
    if half > 4 {
        half
    } else {
        4
    }
}

/// The model mode that a report is labelled with; unknown and legacy modes report as
/// `adaptive_v2`.
pub fn resolve_report_model_mode(mode: &str) -> (r: String)
    ensures
        r@ == (if mode@ == "baseline_v1"@ || mode@ == "adaptive_v3"@ || mode@ == "adaptive_v3_shadow"@ {
            mode@
        } else {
            "adaptive_v2"@
        }),
{
    if same_text(mode, "baseline_v1") {
        "baseline_v1".to_owned()
    } else if same_text(mode, "adaptive_v3") {
        "adaptive_v3".to_owned()
    } else if same_text(mode, "adaptive_v3_shadow") {
        "adaptive_v3_shadow".to_owned()
    } else {
        "adaptive_v2".to_owned()
    }
}

/// The expert duels: name, challenger, incumbent.
pub fn duel_pairs() -> (r: [(&'static str, &'static str, &'static str); 3])
    ensures
        r@.len() == 3,
        r@[0].0@ == "cycle_vs_markov"@ && r@[0].1@ == "auto_cycle"@ && r@[0].2@ == "markov"@,
        r@[1].0@ == "exact_vs_base"@ && r@[1].1@ == "exact_motif"@ && r@[1].2@ == "base"@,
        r@[2].0@ == "approx_vs_base"@ && r@[2].1@ == "approx_shape"@ && r@[2].2@ == "base"@,
{
    [
        ("cycle_vs_markov", "auto_cycle", "markov"),
        ("exact_vs_base", "exact_motif", "base"),
        ("approx_vs_base", "approx_shape", "base"),
    ]
}

/// The entry stored under key `k`: its value and sample count; where a key repeats, the
/// last entry counts, as when the entries are collected into a map.
pub open spec fn spec_lookup<T>(entries: Seq<(String, T, usize)>, k: Seq<char>) -> Option<(T, usize)>
    decreases entries.len(),
{
    if entries.len() == 0 {
        None
    } else if entries.last().0@ == k {
        Some((entries.last().1, entries.last().2))
    } else {
        spec_lookup(entries.drop_last(), k)
    }
}

/// The entry stored under key `k`.
pub fn lookup_entry<T: Copy>(entries: &Vec<(String, T, usize)>, k: &String) -> (r: Option<(T, usize)>)
    ensures
        r == spec_lookup(entries@, k@),
{
    let mut i: usize = entries.len();
    assert(entries@.subrange(0, entries.len() as int) =~= entries@);
    while i > 0
        invariant
            i <= entries.len(),
            spec_lookup(entries@, k@) == spec_lookup(entries@.subrange(0, i as int), k@),
        decreases i,
    {
        let ghost pre = entries@.subrange(0, i as int);
        assert(pre.drop_last() =~= entries@.subrange(0, i - 1));
        if entries[i - 1].0 == *k {
            return Some((entries[i - 1].1, entries[i - 1].2));
        }
        i = i - 1;
    }
    None
}

/// Whether the entry of `scope` exists and has at least `fit` samples.
pub open spec fn spec_qualifies<T>(entries: Seq<(String, T, usize)>, b: PredictionBucket, scope: BucketScope, fit: int) -> bool {
    match spec_lookup(entries, spec_scoped_key(b, scope)) {
        Some(e) => e.1 >= fit,
        None => false,
    }
}

/// The sample count of the entry of `scope` (0 when there is none).
pub open spec fn spec_scope_count<T>(entries: Seq<(String, T, usize)>, b: PredictionBucket, scope: BucketScope) -> int {
    match spec_lookup(entries, spec_scoped_key(b, scope)) {
        Some(e) => e.1 as int,
        None => 0,
    }
}

/// The most specific scope whose entry has at least `fit` samples; between the two
/// four-dimension scopes the context one wins only with strictly more samples.
pub open spec fn spec_pick_scope<T>(entries: Seq<(String, T, usize)>, b: PredictionBucket, fit: int) -> Option<BucketScope> {
    if spec_qualifies(entries, b, BucketScope::Full5d, fit) {
        Some(BucketScope::Full5d)
    } else if spec_qualifies(entries, b, BucketScope::Active4d, fit) {
        if spec_qualifies(entries, b, BucketScope::Context4d, fit)
            && spec_scope_count(entries, b, BucketScope::Context4d) > spec_scope_count(entries, b, BucketScope::Active4d) {
            Some(BucketScope::Context4d)
        } else {
            Some(BucketScope::Active4d)
        }
    } else if spec_qualifies(entries, b, BucketScope::Context4d, fit) {
        Some(BucketScope::Context4d)
    } else if spec_qualifies(entries, b, BucketScope::Core3d, fit) {
        Some(BucketScope::Core3d)
    } else {
        None
    }
}

/// The value stored for a scope (meaningful where the scope's entry exists).
pub open spec fn spec_scope_value<T>(entries: Seq<(String, T, usize)>, b: PredictionBucket, scope: BucketScope) -> T {
    spec_lookup(entries, spec_scoped_key(b, scope)).unwrap().0
}

/// Walks the scopes from most to least specific and keeps the best qualifying entry: a
/// more specific scope, or the same specificity with more samples, replaces the kept one.
pub fn pick_scope<T: Copy>(entries: &Vec<(String, T, usize)>, fit: usize, bucket: &PredictionBucket) -> (r: Option<(BucketScope, T)>)
    ensures
        match spec_pick_scope(entries@, *bucket, fit as int) {
            Some(scope) => r == Some((scope, spec_scope_value(entries@, *bucket, scope))),
            None => r.is_none(),
        },
{
    let scopes = BucketScope::objective_scopes();
    let mut best: Option<(BucketScope, T, usize)> = None;
    let mut i: usize = 0;
    while i < 4
        invariant
            i <= 4,
            scopes@ == seq![BucketScope::Full5d, BucketScope::Active4d, BucketScope::Context4d, BucketScope::Core3d],
            i == 0 ==> best.is_none(),
            i == 1 ==> best == (if spec_qualifies(entries@, *bucket, BucketScope::Full5d, fit as int) {
                Some((BucketScope::Full5d, spec_scope_value(entries@, *bucket, BucketScope::Full5d), spec_scope_count(entries@, *bucket, BucketScope::Full5d) as usize))
            } else {
                None
            }),
            i >= 2 ==> match best {
                Some(bb) => bb.2 as int == spec_scope_count(entries@, *bucket, bb.0)
                    && bb.1 == spec_scope_value(entries@, *bucket, bb.0)
                    && spec_qualifies(entries@, *bucket, bb.0, fit as int),
                None => true,
            },
            i >= 2 ==> spec_best_scope(best) == spec_pick_prefix(entries@, *bucket, fit as int, i as int),
        decreases 4 - i,
    {
        let scope = scopes[i];
        let key = bucket.scoped_key(scope);
        match lookup_entry(entries, &key) {
            Some((value, count)) => {
                if count >= fit {
                    let replace = match best {
                        Some((best_scope, _, best_count)) => scope.specificity_rank() > best_scope.specificity_rank()
                            || (scope.specificity_rank() == best_scope.specificity_rank() && count > best_count),
                        None => true,
                    };
                    if replace {
                        best = Some((scope, value, count));
                    }
                }
            },
            None => {},
        }
        i = i + 1;
    }
    match best {
        Some((scope, value, _)) => Some((scope, value)),
        None => None,
    }
}

/// The scope of a kept entry.
pub open spec fn spec_best_scope<T>(best: Option<(BucketScope, T, usize)>) -> Option<BucketScope> {
    match best {
        Some(bb) => Some(bb.0),
        None => None,
    }
}

/// The scope kept after walking the first `i` scopes (for `i` from 2 on).
pub open spec fn spec_pick_prefix<T>(entries: Seq<(String, T, usize)>, b: PredictionBucket, fit: int, i: int) -> Option<BucketScope> {
    if spec_qualifies(entries, b, BucketScope::Full5d, fit) {
        Some(BucketScope::Full5d)
    } else if i >= 3 && spec_qualifies(entries, b, BucketScope::Active4d, fit) && spec_qualifies(entries, b, BucketScope::Context4d, fit)
        && spec_scope_count(entries, b, BucketScope::Context4d) > spec_scope_count(entries, b, BucketScope::Active4d) {
        Some(BucketScope::Context4d)
    } else if spec_qualifies(entries, b, BucketScope::Active4d, fit) {
        Some(BucketScope::Active4d)
    } else if i >= 3 && spec_qualifies(entries, b, BucketScope::Context4d, fit) {
        Some(BucketScope::Context4d)
    } else if i >= 4 && spec_qualifies(entries, b, BucketScope::Core3d, fit) {
        Some(BucketScope::Core3d)
    } else {
        None
    }
}

/// The champion route for a bucket: that of the most specific stored scope with enough
/// samples (labelled `3d`/`4d`/`5d`), else the global route once the model has enough
/// samples (`global`), else the plain blend (`fallback`).
pub fn select_bucket_champion_route_raw(
    global_route: BucketChampionRoute,
    bucket_champions: &Vec<(String, BucketChampionRoute, usize)>,
    bucket_min_samples: usize,
    sample_count: usize,
    bucket: &PredictionBucket,
) -> (r: (BucketChampionRoute, &'static str))
    ensures
        ({
            let fit = if bucket_min_samples / 2 > 4 { bucket_min_samples / 2 } else { 4 };
            match spec_pick_scope(bucket_champions@, *bucket, fit as int) {
                Some(scope) => r.0 == spec_scope_value(bucket_champions@, *bucket, scope) && r.1@ == spec_objective_source(scope),
                None => if sample_count >= fit {
                    r.0 == global_route && r.1@ == "global"@
                } else {
                    r.0 == BucketChampionRoute::Blend && r.1@ == "fallback"@
                },
            }
        }),
{
    let fit = bucket_fit_min_samples(bucket_min_samples);
    match pick_scope(bucket_champions, fit, bucket) {
        Some((scope, route)) => (route, scope.objective_source_label()),
        None => if sample_count >= fit {
            (global_route, "global")
        } else {
            (BucketChampionRoute::Blend, "fallback")
        },
    }
}

/// The blend objective for a bucket: that of the most specific stored scope with enough
/// samples (labelled `3d`/`4d`/`5d`), else the global objective, labelled `global` once the
/// model has enough samples and `fallback` before.
pub fn select_v2_objective_for_bucket_raw(
    global_objective: V2BlendObjective,
    bucket_objectives: &Vec<(String, V2BlendObjective, usize)>,
    bucket_min_samples: usize,
    sample_count: usize,
    bucket: &PredictionBucket,
) -> (r: (V2BlendObjective, &'static str))
    ensures
        ({
            let fit = if bucket_min_samples / 2 > 4 { bucket_min_samples / 2 } else { 4 };
            match spec_pick_scope(bucket_objectives@, *bucket, fit as int) {
                Some(scope) => r.0 == spec_scope_value(bucket_objectives@, *bucket, scope) && r.1@ == spec_objective_source(scope),
                None => r.0 == global_objective && r.1@ == (if sample_count >= fit { "global"@ } else { "fallback"@ }),
            }
        }),
{
    let fit = bucket_fit_min_samples(bucket_min_samples);
    match pick_scope(bucket_objectives, fit, bucket) {
        Some((scope, objective)) => (objective, scope.objective_source_label()),
        None => if sample_count >= fit {
            (global_objective, "global")
        } else {
            (global_objective, "fallback")
        },
    }
}

/// The display name of a stat: the name listed for it (the last one where it is listed
/// twice, as when the list is collected into a map), else the key itself.
pub fn stat_display_name(display_map: Option<&Vec<(String, String)>>, stat_key: &str) -> (r: String)
    ensures
        r@ == (match display_map {
            Some(m) => match spec_last_value(m@, stat_key@) {
                Some(v) => v,
                None => stat_key@,
            },
            None => stat_key@,
        }),
{
    match display_map {
        Some(m) => {
            let mut i: usize = m.len();
            assert(m@.subrange(0, m.len() as int) =~= m@);
            while i > 0
                invariant
                    i <= m.len(),
                    display_map == Some(m),
                    spec_last_value(m@, stat_key@) == spec_last_value(m@.subrange(0, i as int), stat_key@),
                decreases i,
            {
                let ghost pre = m@.subrange(0, i as int);
                assert(pre.drop_last() =~= m@.subrange(0, i - 1));
                if same_text(m[i - 1].0.as_str(), stat_key) {
                    let v = m[i - 1].1.clone();
                    assert(pre.last() == m@[i - 1]);
                    return v;
                }
                i = i - 1;
            }
            stat_key.to_owned()
        },
        None => stat_key.to_owned(),
    }
}

/// The value of the last pair whose key is `k`.
pub open spec fn spec_last_value(m: Seq<(String, String)>, k: Seq<char>) -> Option<Seq<char>>
    decreases m.len(),
{
    if m.len() == 0 {
        None
    } else if m.last().0@ == k {
        Some(m.last().1@)
    } else {
        spec_last_value(m.drop_last(), k)
    }
}

/// Whether `k` starts with `p`.
pub open spec fn spec_has_prefix(k: Seq<char>, p: Seq<char>) -> bool {
    k.len() >= p.len() && k.subrange(0, p.len() as int) == p
}

/// The readable form of a scoped bucket key; a key of an unexpected shape is kept as is.
pub open spec fn spec_format_scoped(k: Seq<char>) -> Seq<char> {
    if spec_has_prefix(k, "4a:"@) {
        let p = spec_split(k.subrange(3, k.len() as int), '|');
        if p.len() == 4 {
            "4d(active) depth="@ + p[0] + " / markov="@ + p[1] + " / motif="@ + p[2] + " / active="@ + p[3]
        } else {
            k
        }
    } else if spec_has_prefix(k, "4c:"@) {
        let p = spec_split(k.subrange(3, k.len() as int), '|');
        if p.len() == 4 {
            "4d(ctx) depth="@ + p[0] + " / markov="@ + p[1] + " / motif="@ + p[2] + " / ctx="@ + p[3]
        } else {
            k
        }
    } else if spec_has_prefix(k, "3:"@) {
        let p = spec_split(k.subrange(2, k.len() as int), '|');
        if p.len() == 3 {
            "3d depth="@ + p[0] + " / markov="@ + p[1] + " / motif="@ + p[2]
        } else {
            k
        }
    } else {
        let p = spec_split(k, '|');
        if p.len() == 5 {
            "5d depth="@ + p[0] + " / markov="@ + p[1] + " / motif="@ + p[2] + " / active="@ + p[3] + " / ctx="@ + p[4]
        } else {
            k
        }
    }
}

fn has_prefix(k: &str, p: &str) -> (r: bool)
    ensures
        r == spec_has_prefix(k@, p@),
{
    let n = p.unicode_len();
    if k.unicode_len() < n {
        false
    } else {
        same_text(k.substring_char(0, n), p)
    }
}

/// The readable form of a stored bucket key, such as `4d(active) depth=.. / markov=.. / ..`.
pub fn format_scoped_bucket_key(bucket_key: &str) -> (r: String)
    ensures
        r@ == spec_format_scoped(bucket_key@),
{
    let n = bucket_key.unicode_len();
    proof {
        reveal_strlit("4a:");
        reveal_strlit("4c:");
        reveal_strlit("3:");
    }
    if has_prefix(bucket_key, "4a:") {
        let p = split_on(bucket_key.substring_char(3, n), '|');
        if p.len() == 4 {
            let mut s = "4d(active) depth=".to_owned();
            s.append(p[0].as_str());
            s.append(" / markov=");
            s.append(p[1].as_str());
            s.append(" / motif=");
            s.append(p[2].as_str());
            s.append(" / active=");
            s.append(p[3].as_str());
            return s;
        }
    } else if has_prefix(bucket_key, "4c:") {
        let p = split_on(bucket_key.substring_char(3, n), '|');
        if p.len() == 4 {
            let mut s = "4d(ctx) depth=".to_owned();
            s.append(p[0].as_str());
            s.append(" / markov=");
            s.append(p[1].as_str());
            s.append(" / motif=");
            s.append(p[2].as_str());
            s.append(" / ctx=");
            s.append(p[3].as_str());
            return s;
        }
    } else if has_prefix(bucket_key, "3:") {
        let p = split_on(bucket_key.substring_char(2, n), '|');
        if p.len() == 3 {
            let mut s = "3d depth=".to_owned();
            s.append(p[0].as_str());
            s.append(" / markov=");
            s.append(p[1].as_str());
            s.append(" / motif=");
            s.append(p[2].as_str());
            return s;
        }
    } else {
        let p = split_on(bucket_key, '|');
        if p.len() == 5 {
            let mut s = "5d depth=".to_owned();
            s.append(p[0].as_str());
            s.append(" / markov=");
            s.append(p[1].as_str());
            s.append(" / motif=");
            s.append(p[2].as_str());
            s.append(" / active=");
            s.append(p[3].as_str());
            s.append(" / ctx=");
            s.append(p[4].as_str());
            return s;
        }
    }
    bucket_key.to_owned()
}

/// The labels gathered per stat, as a list of `(stat key, labels)` entries in the order the
/// stats first got one.
pub open spec fn spec_label_view(m: Seq<(String, Vec<String>)>) -> Seq<(Seq<char>, Seq<Seq<char>>)> {
    m.map_values(|e: (String, Vec<String>)| (e.0@, e.1.deep_view()))
}

/// The position of the first entry for `k` among the first `n` entries, or -1.
pub open spec fn spec_first_entry(m: Seq<(Seq<char>, Seq<Seq<char>>)>, k: Seq<char>, n: int) -> int
    decreases n,
{
    if n <= 0 {
        -1
    } else if spec_first_entry(m, k, n - 1) >= 0 {
        spec_first_entry(m, k, n - 1)
    } else if m[n - 1].0 == k {
        n - 1
    } else {
        -1
    }
}

/// The map after appending `label` to the labels of `k`: the stat's entry grows by the
/// label at its end, or a new entry with just the label is added at the end.
pub open spec fn spec_push_label(m: Seq<(Seq<char>, Seq<Seq<char>>)>, k: Seq<char>, label: Seq<char>) -> Seq<(Seq<char>, Seq<Seq<char>>)> {
    let i = spec_first_entry(m, k, m.len() as int);
    if i >= 0 {
        m.update(i, (k, m[i].1.push(label)))
    } else {
        m.push((k, seq![label]))
    }
}

/// Appends a label to those of a stat.
pub fn push_label(map: &mut Vec<(String, Vec<String>)>, stat_key: &str, label: String)
    ensures
        spec_label_view(final(map)@) == spec_push_label(spec_label_view(old(map)@), stat_key@, label@),
{
    let ghost m = spec_label_view(map@);
    let mut i: usize = 0;
    while i < map.len()
        invariant
            i <= map.len(),
            map@ == old(map)@,
            m == spec_label_view(map@),
            spec_first_entry(m, stat_key@, i as int) == -1,
        decreases map.len() - i,
    {
        if same_text(map[i].0.as_str(), stat_key) {
            proof {
                lemma_first_entry_found(m, stat_key@, i as int, m.len() as int);
            }
            let ghost old_map = map@;
            let (key, mut labels) = map.remove(i);
            let ghost old_labels = labels.deep_view();
            labels.push(label);
            assert(labels.deep_view() =~= old_labels.push(label@));
            map.insert(i, (key, labels));
            assert(map@ =~= old_map.update(i as int, (key, labels)));
            assert(spec_label_view(map@) =~= spec_push_label(m, stat_key@, label@));
            return;
        }
        i = i + 1;
    }
    let ghost label_view = label@;
    let mut labels: Vec<String> = Vec::new();
    labels.push(label);
    assert(labels.deep_view() =~= seq![label_view]);
    map.push((stat_key.to_owned(), labels));
    assert(spec_label_view(map@) =~= spec_push_label(m, stat_key@, label_view));
}

proof fn lemma_first_entry_found(m: Seq<(Seq<char>, Seq<Seq<char>>)>, k: Seq<char>, i: int, n: int)
    requires
        0 <= i < n <= m.len(),
        spec_first_entry(m, k, i) == -1,
        m[i].0 == k,
    ensures
        spec_first_entry(m, k, n) == i,
    decreases n - i,
{
    if n > i + 1 {
        lemma_first_entry_found(m, k, i, n - 1);
    }
}

/// Appends a source name to those of a stat.
pub fn push_source(map: &mut Vec<(String, Vec<String>)>, stat_key: &str, source: &str)
    ensures
        spec_label_view(final(map)@) == spec_push_label(spec_label_view(old(map)@), stat_key@, source@),
{
    push_label(map, stat_key, source.to_owned());
}

} // verus!
