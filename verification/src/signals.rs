//! The counts behind interval signals: walking a history of events, how often a category
//! followed within a horizon, overall and after each currently active trigger.
use vstd::prelude::*;
use crate::state::{
    future_has_category, interval_trigger_keys, spec_future_has_category, spec_interval_triggers,
    BacktestEventLite, PatternEventLite,
};
use crate::text::same_text;

verus! {

/// The stat keys of a history.
pub open spec fn spec_history_keys(h: Seq<BacktestEventLite>) -> Seq<Seq<char>> {
    h.map_values(|e: BacktestEventLite| e.stat_key@)
}

/// The events of a history up to and including position `idx`, as the trigger rules read
/// them.
pub open spec fn spec_prefix(h: Seq<BacktestEventLite>, idx: int) -> Seq<PatternEventLite> {
    h.take(idx + 1).map_values(
        |e: BacktestEventLite| PatternEventLite { stat_key: e.stat_key, tier_index: e.tier_index, analysis_seq: e.analysis_seq },
    )
}

/// Whether the triggers of the prefix up to `idx` include key `k`.
pub open spec fn spec_fires(h: Seq<BacktestEventLite>, idx: int, k: Seq<char>) -> bool {
    exists|i: int| 0 <= i < spec_interval_triggers(spec_prefix(h, idx)).len()
        && spec_interval_triggers(spec_prefix(h, idx))[i].0 == k
}

/// Over positions `lo..hi`: how many are followed by category `t` within the horizon, and
/// how many there are.
pub open spec fn spec_baseline(h: Seq<BacktestEventLite>, horizon: int, t: Seq<char>, lo: int, hi: int) -> (nat, nat)
    decreases hi - lo,
{
    if hi <= lo {
        (0, 0)
    } else {
        let prev = spec_baseline(h, horizon, t, lo, hi - 1);
        (
            prev.0 + if spec_future_has_category(spec_history_keys(h), hi - 1, horizon, t) { 1nat } else { 0nat },
            prev.1 + 1,
        )
    }
}

/// Over positions `lo..hi` where trigger `k` fires: how many are followed by category `t`
/// within the horizon, and how many there are.
pub open spec fn spec_after_trigger(h: Seq<BacktestEventLite>, horizon: int, k: Seq<char>, t: Seq<char>, lo: int, hi: int) -> (nat, nat)
    decreases hi - lo,
{
    if hi <= lo {
        (0, 0)
    } else {
        let prev = spec_after_trigger(h, horizon, k, t, lo, hi - 1);
        if spec_fires(h, hi - 1, k) {
            (
                prev.0 + if spec_future_has_category(spec_history_keys(h), hi - 1, horizon, t) { 1nat } else { 0nat },
                prev.1 + 1,
            )
        } else {
            prev
        }
    }
}

/// The positions walked: from 8 up to the last one that still has a full horizon after it.
pub open spec fn spec_walk_end(len: int, horizon: int) -> int {
    if len > horizon { len - horizon } else { 0 }
}

/// The counts behind interval signals, for each target category: `baseline[t]` is
/// `(hits, samples)` over all positions walked, `after[k][t]` the same over the positions
/// where active trigger `k` fires.
#[derive(Clone, Debug, PartialEq, Eq)]
pub struct IntervalCounts {
    pub baseline: Vec<(usize, usize)>,
    pub after: Vec<Vec<(usize, usize)>>,
}

fn prefix_events(history: &Vec<BacktestEventLite>, idx: usize) -> (r: Vec<PatternEventLite>)
    requires
        idx < history.len(),
    ensures
        r@ == spec_prefix(history@, idx as int),
{
    let mut out: Vec<PatternEventLite> = Vec::new();
    let mut i: usize = 0;
    while i <= idx
        invariant
            idx < history.len(),
            i <= idx + 1,
            out.len() == i,
            forall|j: int| 0 <= j < i ==> #[trigger] out@[j] == (PatternEventLite {
                stat_key: history@[j].stat_key,
                tier_index: history@[j].tier_index,
                analysis_seq: history@[j].analysis_seq,
            }),
        decreases idx + 1 - i,
    {
        let e = &history[i];
        out.push(PatternEventLite { stat_key: e.stat_key.clone(), tier_index: e.tier_index, analysis_seq: e.analysis_seq });
        i = i + 1;
    }
    assert(out@ =~= spec_prefix(history@, idx as int));
    out
}

fn zero_row(n: usize) -> (r: Vec<(usize, usize)>)
    ensures
        r.len() == n,
        forall|x: int| 0 <= x < n ==> #[trigger] r@[x] == (0usize, 0usize),
{
    let mut row: Vec<(usize, usize)> = Vec::new();
    let mut t: usize = 0;
    while t < n
        invariant
            t <= n,
            row.len() == t,
            forall|x: int| 0 <= x < t ==> #[trigger] row@[x] == (0usize, 0usize),
        decreases n - t,
    {
        row.push((0, 0));
        t = t + 1;
    }
    row
}

fn fires(triggers: &Vec<(String, String)>, k: &String) -> (r: bool)
    ensures
        r == exists|i: int| 0 <= i < triggers.len() && triggers@[i].0@ == k@,
{
    let mut i: usize = 0;
    while i < triggers.len()
        invariant
            i <= triggers.len(),
            forall|j: int| 0 <= j < i ==> triggers@[j].0@ != k@,
        decreases triggers.len() - i,
    {
        if same_text(triggers[i].0.as_str(), k.as_str()) {
            return true;
        }
        i = i + 1;
    }
    false
}

/// Walks the history from position 8 to the last with a full horizon after it, and counts,
/// for each target category, how often it followed within the horizon, overall and after
/// each of the active triggers.
pub fn interval_signal_counts(
    history: &Vec<BacktestEventLite>,
    active_keys: &Vec<String>,
    targets: &Vec<&'static str>,
    horizon: usize,
) -> (r: IntervalCounts)
    requires
        history.len() <= i64::MAX,
    ensures
        r.baseline.len() == targets.len(),
        forall|t: int| 0 <= t < targets.len() ==> (#[trigger] r.baseline@[t].0 as nat, r.baseline@[t].1 as nat)
            == spec_baseline(history@, horizon as int, targets@[t]@, 8, spec_walk_end(history.len() as int, horizon as int)),
        r.after.len() == active_keys.len(),
        forall|k: int| 0 <= k < active_keys.len() ==> #[trigger] r.after@[k].len() == targets.len(),
        forall|k: int, t: int| 0 <= k < active_keys.len() && 0 <= t < targets.len() ==> (
            #[trigger] r.after@[k]@[t].0 as nat,
            r.after@[k]@[t].1 as nat,
        ) == spec_after_trigger(
            history@,
            horizon as int,
            active_keys@[k]@,
            targets@[t]@,
            8,
            spec_walk_end(history.len() as int, horizon as int),
        ),
{
    let end: usize = if history.len() > horizon { history.len() - horizon } else { 0 };
    let mut baseline: Vec<(usize, usize)> = zero_row(targets.len());
    let mut after: Vec<Vec<(usize, usize)>> = Vec::new();
    let mut k: usize = 0;
    while k < active_keys.len()
        invariant
            k <= active_keys.len(),
            after.len() == k,
            forall|x: int| 0 <= x < k ==> #[trigger] after@[x].len() == targets.len(),
            forall|y: int, x: int| 0 <= y < k && 0 <= x < targets.len() ==> #[trigger] after@[y]@[x] == (0usize, 0usize),
        decreases active_keys.len() - k,
    {
        after.push(zero_row(targets.len()));
        k = k + 1;
    }
    let lo: usize = 8;
    let mut idx: usize = lo;
    while idx < end
        invariant
            history.len() <= i64::MAX,
            end == spec_walk_end(history.len() as int, horizon as int),
            end <= history.len(),
            lo == 8,
            8 <= idx,
            idx <= end || idx == 8,
            baseline.len() == targets.len(),
            after.len() == active_keys.len(),
            forall|x: int| 0 <= x < active_keys.len() ==> #[trigger] after@[x].len() == targets.len(),
            forall|x: int| 0 <= x < targets.len() ==> (#[trigger] baseline@[x].0 as nat, baseline@[x].1 as nat)
                == spec_baseline(history@, horizon as int, targets@[x]@, 8, idx as int),
            forall|y: int, x: int| 0 <= y < active_keys.len() && 0 <= x < targets.len() ==> (
                #[trigger] after@[y]@[x].0 as nat,
                after@[y]@[x].1 as nat,
            ) == spec_after_trigger(history@, horizon as int, active_keys@[y]@, targets@[x]@, 8, idx as int),
            forall|x: int| 0 <= x < targets.len() ==> #[trigger] baseline@[x].1 <= idx && baseline@[x].0 <= idx,
            forall|y: int, x: int| 0 <= y < active_keys.len() && 0 <= x < targets.len() ==> #[trigger] after@[y]@[x].1
                <= idx && after@[y]@[x].0 <= idx,
        decreases end - idx,
    {
        let prefix = prefix_events(history, idx);
        let triggers = interval_trigger_keys(prefix.as_slice());
        let mut t: usize = 0;
        while t < targets.len()
            invariant
                8 <= idx < end <= history.len(),
                history.len() <= i64::MAX,
                t <= targets.len(),
                baseline.len() == targets.len(),
                after.len() == active_keys.len(),
                spec_interval_triggers(prefix@) == spec_interval_triggers(spec_prefix(history@, idx as int)),
                crate::state::spec_pairs_view(triggers@) == spec_interval_triggers(prefix@),
                forall|x: int| 0 <= x < active_keys.len() ==> #[trigger] after@[x].len() == targets.len(),
                forall|x: int| 0 <= x < targets.len() ==> (#[trigger] baseline@[x].0 as nat, baseline@[x].1 as nat)
                    == spec_baseline(history@, horizon as int, targets@[x]@, 8, if x < t { idx + 1 } else { idx as int }),
                forall|y: int, x: int| 0 <= y < active_keys.len() && 0 <= x < targets.len() ==> (
                    #[trigger] after@[y]@[x].0 as nat,
                    after@[y]@[x].1 as nat,
                ) == spec_after_trigger(
                    history@,
                    horizon as int,
                    active_keys@[y]@,
                    targets@[x]@,
                    8,
                    if x < t { idx + 1 } else { idx as int },
                ),
                forall|x: int| 0 <= x < targets.len() ==> #[trigger] baseline@[x].1 <= idx + 1 && baseline@[x].0 <= idx + 1,
                forall|y: int, x: int| 0 <= y < active_keys.len() && 0 <= x < targets.len() ==> #[trigger] after@[y]@[x].1
                    <= idx + 1 && after@[y]@[x].0 <= idx + 1,
                forall|x: int| t <= x < targets.len() ==> #[trigger] baseline@[x].1 <= idx && baseline@[x].0 <= idx,
                forall|y: int, x: int| 0 <= y < active_keys.len() && t <= x < targets.len() ==> #[trigger] after@[y]@[x].1
                    <= idx && after@[y]@[x].0 <= idx,
            decreases targets.len() - t,
        {
            let hs = history.as_slice();
            let hit = future_has_category(hs, idx, horizon, targets[t]);
            assert(hs@.map_values(|e: BacktestEventLite| e.stat_key@) == spec_history_keys(history@));
            let (bh, bs) = baseline[t];
            let nb: (usize, usize) = (if hit { bh + 1 } else { bh }, bs + 1);
            baseline.set(t, nb);
            let mut k: usize = 0;
            while k < active_keys.len()
                invariant
                    8 <= idx < end <= history.len(),
                    t < targets.len(),
                    k <= active_keys.len(),
                    baseline.len() == targets.len(),
                    after.len() == active_keys.len(),
                    hit == spec_future_has_category(spec_history_keys(history@), idx as int, horizon as int, targets@[t as int]@),
                    spec_interval_triggers(prefix@) == spec_interval_triggers(spec_prefix(history@, idx as int)),
                    crate::state::spec_pairs_view(triggers@) == spec_interval_triggers(prefix@),
                    forall|x: int| 0 <= x < active_keys.len() ==> #[trigger] after@[x].len() == targets.len(),
                    forall|y: int, x: int| 0 <= y < active_keys.len() && 0 <= x < targets.len() ==> (
                        #[trigger] after@[y]@[x].0 as nat,
                        after@[y]@[x].1 as nat,
                    ) == spec_after_trigger(
                        history@,
                        horizon as int,
                        active_keys@[y]@,
                        targets@[x]@,
                        8,
                        if x < t || (x == t && y < k) { idx + 1 } else { idx as int },
                    ),
                    forall|y: int, x: int| 0 <= y < active_keys.len() && 0 <= x < targets.len() ==> #[trigger] after@[y]@[x].1
                        <= idx + 1 && after@[y]@[x].0 <= idx + 1,
                    forall|y: int, x: int| 0 <= y < active_keys.len() && t < x < targets.len() ==> #[trigger] after@[y]@[x].1
                        <= idx && after@[y]@[x].0 <= idx,
                    forall|y: int| k <= y < active_keys.len() ==> #[trigger] after@[y]@[t as int].1 <= idx
                        && after@[y]@[t as int].0 <= idx,
                decreases active_keys.len() - k,
            {
                let f = fires(&triggers, &active_keys[k]);
                assert(f == spec_fires(history@, idx as int, active_keys@[k as int]@)) by {
                    let tv = spec_interval_triggers(spec_prefix(history@, idx as int));
                    if f {
                        let i = choose|i: int| 0 <= i < triggers.len() && triggers@[i].0@ == active_keys@[k as int]@;
                        assert(tv[i].0 == triggers@[i].0@);
                    }
                    if spec_fires(history@, idx as int, active_keys@[k as int]@) {
                        let i = choose|i: int| 0 <= i < tv.len() && tv[i].0 == active_keys@[k as int]@;
                        assert(tv[i].0 == triggers@[i].0@);
                    }
                }
                if f {
                    let ghost old_after = after@;
                    assert(old_after[k as int].len() == targets.len());
                    let mut row = after.remove(k);
                    assert(row@ == old_after[k as int]@);
                    let (h, s) = row[t];
                    row.set(t, (if hit { h + 1 } else { h }, s + 1));
                    after.insert(k, row);
                    assert(after@ == old_after.update(k as int, row));
                }
                k = k + 1;
            }
            t = t + 1;
        }
        idx = idx + 1;
    }
    IntervalCounts { baseline, after }
}

} // verus!
