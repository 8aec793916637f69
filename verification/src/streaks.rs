//! Grouping of ordered events by echo, runs of same-category stats inside an echo, the
//! zones they pass through, and how the tier of a stat moves between its appearances.
use vstd::prelude::*;
use crate::category::{infer_zone, spec_infer_zone, spec_stat_category, stat_category};
use crate::domain::CategoryStreakRow;
use crate::tally::{spec_is_tally, spec_pair_tally_view, spec_tally_view, tally, tally_pairs};
use crate::text::same_text;

verus! {

/// One ordered event of an echo.
#[derive(Clone, Debug, PartialEq, Eq)]
pub struct EventSlim {
    pub stat_key: String,
    pub tier_index: i64,
    pub slot_no: i64,
}

/// A copy of an event.
pub fn copy_event(e: &EventSlim) -> (r: EventSlim)
    ensures
        r == *e,
{
    EventSlim { stat_key: e.stat_key.clone(), tier_index: e.tier_index, slot_no: e.slot_no }
}

/// The view of an event: its stat key, tier and slot.
pub open spec fn spec_slim(e: EventSlim) -> (Seq<char>, int, int) {
    (e.stat_key@, e.tier_index as int, e.slot_no as int)
}

/// The view of a row `(echo id, event)`.
pub open spec fn spec_row(r: (String, EventSlim)) -> (Seq<char>, (Seq<char>, int, int)) {
    (r.0@, spec_slim(r.1))
}

/// The view of a group `(echo id, events)`.
pub open spec fn spec_group_view(g: (String, Vec<EventSlim>)) -> (Seq<char>, Seq<(Seq<char>, int, int)>) {
    (g.0@, g.1@.map_values(|e: EventSlim| spec_slim(e)))
}

/// Rows split into maximal runs of consecutive rows with the same echo id.
pub open spec fn spec_groups<K, V>(rows: Seq<(K, V)>) -> Seq<(K, Seq<V>)>
    decreases rows.len(),
{
    if rows.len() == 0 {
        Seq::empty()
    } else {
        let g = spec_groups(rows.drop_last());
        let last = rows.last();
        if g.len() > 0 && g.last().0 == last.0 {
            g.update(g.len() - 1, (last.0, g.last().1.push(last.1)))
        } else {
            g.push((last.0, seq![last.1]))
        }
    }
}

/// Groups rows that arrive ordered by echo into one event list per echo.
pub fn group_echo_rows(rows: Vec<(String, EventSlim)>) -> (r: Vec<(String, Vec<EventSlim>)>)
    ensures
        r@.map_values(|g: (String, Vec<EventSlim>)| spec_group_view(g)) == spec_groups(
            rows@.map_values(|x: (String, EventSlim)| spec_row(x)),
        ),
{
    let ghost rv = rows@.map_values(|x: (String, EventSlim)| spec_row(x));
    let mut grouped: Vec<(String, Vec<EventSlim>)> = Vec::new();
    let mut i: usize = 0;
    while i < rows.len()
        invariant
            i <= rows.len(),
            rv == rows@.map_values(|x: (String, EventSlim)| spec_row(x)),
            grouped@.map_values(|g: (String, Vec<EventSlim>)| spec_group_view(g)) == spec_groups(
                rv.take(i as int),
            ),
        decreases rows.len() - i,
    {
        let ghost q = rv.take(i as int + 1);
        assert(q.drop_last() =~= rv.take(i as int));
        assert(q.last() == spec_row(rows@[i as int]));
        let ghost before = grouped@.map_values(|g: (String, Vec<EventSlim>)| spec_group_view(g));
        let echo_id = rows[i].0.clone();
        let event = copy_event(&rows[i].1);
        let n = grouped.len();
        if n > 0 && grouped[n - 1].0 == echo_id {
            let (id, mut events) = grouped.pop().unwrap();
            events.push(event);
            grouped.push((id, events));
            assert(grouped@.map_values(|g: (String, Vec<EventSlim>)| spec_group_view(g)) =~~= before.update(
                n - 1,
                (q.last().0, before.last().1.push(q.last().1)),
            ));
        } else {
            let mut events: Vec<EventSlim> = Vec::new();
            events.push(event);
            grouped.push((echo_id, events));
            assert(grouped@.map_values(|g: (String, Vec<EventSlim>)| spec_group_view(g)) =~~= before.push(
                (q.last().0, seq![q.last().1]),
            ));
        }
        i = i + 1;
    }
    assert(rv.take(rows.len() as int) =~= rv);
    grouped
}

/// The categories of a list of events.
pub open spec fn spec_cats(events: Seq<EventSlim>) -> Seq<Seq<char>> {
    events.map_values(|e: EventSlim| spec_stat_category(e.stat_key@))
}

/// The first position at or after `j` whose category differs from position `i`'s.
pub open spec fn spec_scan(cats: Seq<Seq<char>>, i: int, j: int) -> int
    decreases cats.len() - j,
{
    if j >= cats.len() || j < 0 || cats[j] != cats[i] {
        j
    } else {
        spec_scan(cats, i, j + 1)
    }
}

pub proof fn lemma_scan_bounds(cats: Seq<Seq<char>>, i: int, j: int)
    requires
        0 <= j <= cats.len(),
    ensures
        j <= spec_scan(cats, i, j) <= cats.len(),
        forall|m: int| j <= m < spec_scan(cats, i, j) ==> cats[m] == cats[i],
    decreases cats.len() - j,
{
    if j < cats.len() && cats[j] == cats[i] {
        lemma_scan_bounds(cats, i, j + 1);
    }
}

/// The maximal runs `(start, end)` of equal categories from position `i` on, keeping
/// those of length at least two.
pub open spec fn spec_streaks_from(cats: Seq<Seq<char>>, i: int) -> Seq<(int, int)>
    decreases cats.len() - i,
{
    if i < 0 || i >= cats.len() {
        Seq::empty()
    } else {
        let j = spec_scan(cats, i, i + 1);
        proof {
            lemma_scan_bounds(cats, i, i + 1);
        }
        let here: Seq<(int, int)> = if j - i >= 2 {
            seq![(i, j)]
        } else {
            Seq::empty()
        };
        here + spec_streaks_from(cats, j)
    }
}

/// Whether `row` describes the run `events[i..j]` of echo `echo_id`.
pub open spec fn spec_streak_row(
    row: CategoryStreakRow,
    echo_id: Seq<char>,
    events: Seq<EventSlim>,
    i: int,
    j: int,
) -> bool {
    let cat = spec_stat_category(events[i].stat_key@);
    &&& row.echo_id@ == echo_id
    &&& row.category@ == cat
    &&& row.start_slot == events[i].slot_no
    &&& row.end_slot == events[j - 1].slot_no
    &&& row.length == j - i
    &&& row.stats.deep_view() == events.subrange(i, j).map_values(|e: EventSlim| e.stat_key@)
    &&& row.tiers@ == events.subrange(i, j).map_values(|e: EventSlim| e.tier_index)
    &&& row.possible_zones.deep_view() == spec_infer_zone(cat)
}

/// The labels as owned strings.
pub fn own_labels(labels: &Vec<&'static str>) -> (r: Vec<String>)
    ensures
        r.deep_view() == labels@.map_values(|s: &'static str| s@),
{
    let mut out: Vec<String> = Vec::new();
    let mut i: usize = 0;
    while i < labels.len()
        invariant
            i <= labels.len(),
            out.len() == i,
            forall|j: int| 0 <= j < i ==> out@[j]@ == labels@[j]@,
        decreases labels.len() - i,
    {
        out.push(labels[i].to_owned());
        i = i + 1;
    }
    assert(out.deep_view() =~= labels@.map_values(|s: &'static str| s@));
    out
}

fn streak_row(echo_id: &String, events: &Vec<EventSlim>, i: usize, j: usize) -> (r: CategoryStreakRow)
    requires
        i < j <= events.len(),
        events.len() <= i64::MAX,
    ensures
        spec_streak_row(r, echo_id@, events@, i as int, j as int),
{
    let cat = stat_category(events[i].stat_key.as_str());
    let mut stats: Vec<String> = Vec::new();
    let mut tiers: Vec<i64> = Vec::new();
    let mut m: usize = i;
    while m < j
        invariant
            i <= m <= j,
            j <= events.len(),
            stats.len() == m - i,
            tiers.len() == m - i,
            forall|x: int| 0 <= x < m - i ==> stats@[x]@ == events@[i + x].stat_key@,
            forall|x: int| 0 <= x < m - i ==> tiers@[x] == events@[i + x].tier_index,
        decreases j - m,
    {
        stats.push(events[m].stat_key.clone());
        tiers.push(events[m].tier_index);
        m = m + 1;
    }
    assert(stats.deep_view() =~= events@.subrange(i as int, j as int).map_values(|e: EventSlim| e.stat_key@));
    assert(tiers@ =~= events@.subrange(i as int, j as int).map_values(|e: EventSlim| e.tier_index));
    let zones = infer_zone(cat);
    let possible_zones = own_labels(&zones);
    CategoryStreakRow {
        echo_id: echo_id.clone(),
        category: cat.to_owned(),
        start_slot: events[i].slot_no,
        end_slot: events[j - 1].slot_no,
        length: (j - i) as i64,
        stats,
        tiers,
        possible_zones,
    }
}

/// The runs of at least two consecutive stats of the same category in one echo's events.
pub fn category_streaks(echo_id: &String, events: &Vec<EventSlim>) -> (r: Vec<CategoryStreakRow>)
    requires
        events.len() <= i64::MAX,
    ensures
        r.len() == spec_streaks_from(spec_cats(events@), 0).len(),
        forall|k: int| 0 <= k < r.len() ==> spec_streak_row(
            #[trigger] r@[k],
            echo_id@,
            events@,
            spec_streaks_from(spec_cats(events@), 0)[k].0,
            spec_streaks_from(spec_cats(events@), 0)[k].1,
        ),
{
    let ghost cats = spec_cats(events@);
    let ghost mut done: Seq<(int, int)> = Seq::empty();
    let mut rows: Vec<CategoryStreakRow> = Vec::new();
    let mut i: usize = 0;
    while i < events.len()
        invariant
            cats == spec_cats(events@),
            events.len() <= i64::MAX,
            i <= events.len(),
            spec_streaks_from(cats, 0) == done + spec_streaks_from(cats, i as int),
            rows.len() == done.len(),
            forall|k: int| 0 <= k < rows.len() ==> spec_streak_row(
                #[trigger] rows@[k],
                echo_id@,
                events@,
                done[k].0,
                done[k].1,
            ),
        decreases events.len() - i,
    {
        let cat = stat_category(events[i].stat_key.as_str());
        assert(cats[i as int] == cat@);
        let mut j: usize = i + 1;
        while j < events.len() && same_text(stat_category(events[j].stat_key.as_str()), cat)
            invariant
                cats == spec_cats(events@),
                i < j <= events.len(),
                cats[i as int] == cat@,
                spec_scan(cats, i as int, i + 1) == spec_scan(cats, i as int, j as int),
            decreases events.len() - j,
        {
            assert(cats[j as int] == cat@);
            j = j + 1;
        }
        assert(spec_scan(cats, i as int, j as int) == j);
        proof {
            lemma_scan_bounds(cats, i as int, i + 1);
        }
        if j - i >= 2 {
            let row = streak_row(echo_id, events, i, j);
            rows.push(row);
            proof {
                done = done.push((i as int, j as int));
            }
            assert(spec_streaks_from(cats, i as int) == seq![(i as int, j as int)] + spec_streaks_from(cats, j as int));
        } else {
            assert(spec_streaks_from(cats, i as int) == Seq::<(int, int)>::empty() + spec_streaks_from(cats, j as int));
            assert(Seq::<(int, int)>::empty() + spec_streaks_from(cats, j as int) =~= spec_streaks_from(cats, j as int));
        }
        i = j;
    }
    assert(done + spec_streaks_from(cats, i as int) =~= done);
    rows
}

/// The first zone of a category, or `"未知"` when no zone covers it.
pub open spec fn spec_primary_zone(cat: Seq<char>) -> Seq<char> {
    if spec_infer_zone(cat).len() > 0 {
        spec_infer_zone(cat)[0]
    } else {
        "未知"@
    }
}

/// The primary zones of an echo's events.
pub open spec fn spec_echo_zones(events: Seq<EventSlim>) -> Seq<Seq<char>> {
    events.map_values(|e: EventSlim| spec_primary_zone(spec_stat_category(e.stat_key@)))
}

/// Consecutive pairs of a sequence.
pub open spec fn spec_adjacent<A>(s: Seq<A>) -> Seq<(A, A)> {
    if s.len() == 0 {
        Seq::empty()
    } else {
        Seq::new((s.len() - 1) as nat, |p: int| (s[p], s[p + 1]))
    }
}

/// The primary zones of all echoes, echo after echo.
pub open spec fn spec_all_zones(groups: Seq<(String, Vec<EventSlim>)>) -> Seq<Seq<char>>
    decreases groups.len(),
{
    if groups.len() == 0 {
        Seq::empty()
    } else {
        spec_all_zones(groups.drop_last()) + spec_echo_zones(groups.last().1@)
    }
}

/// The zone moves inside each echo, echo after echo.
pub open spec fn spec_all_zone_moves(groups: Seq<(String, Vec<EventSlim>)>) -> Seq<(Seq<char>, Seq<char>)>
    decreases groups.len(),
{
    if groups.len() == 0 {
        Seq::empty()
    } else {
        spec_all_zone_moves(groups.drop_last()) + spec_adjacent(spec_echo_zones(groups.last().1@))
    }
}

fn primary_zone(cat: &str) -> (r: String)
    ensures
        r@ == spec_primary_zone(cat@),
{
    let zones = infer_zone(cat);
    if zones.len() > 0 {
        assert(spec_infer_zone(cat@)[0] == zones@[0]@);
        zones[0].to_owned()
    } else {
        "未知".to_owned()
    }
}

/// How often each zone is visited and how often each zone follows another inside an echo;
/// both in order of first appearance.
pub fn zone_flow(groups: &Vec<(String, Vec<EventSlim>)>) -> (r: (Vec<(String, usize)>, Vec<((String, String), usize)>))
    ensures
        spec_is_tally(spec_tally_view(r.0@), spec_all_zones(groups@)),
        spec_is_tally(spec_pair_tally_view(r.1@), spec_all_zone_moves(groups@)),
{
    let mut zones: Vec<String> = Vec::new();
    let mut moves: Vec<(String, String)> = Vec::new();
    let mut g: usize = 0;
    while g < groups.len()
        invariant
            g <= groups.len(),
            zones.deep_view() == spec_all_zones(groups@.take(g as int)),
            moves.deep_view() == spec_all_zone_moves(groups@.take(g as int)),
        decreases groups.len() - g,
    {
        let ghost gs = groups@.take(g as int + 1);
        assert(gs.drop_last() =~= groups@.take(g as int));
        let events = &groups[g].1;
        let ghost ez = spec_echo_zones(events@);
        let ghost z0 = zones.deep_view();
        let ghost m0 = moves.deep_view();
        let mut prev: Option<String> = None;
        let mut e: usize = 0;
        while e < events.len()
            invariant
                e <= events.len(),
                ez == spec_echo_zones(events@),
                zones.deep_view() == z0 + ez.take(e as int),
                moves.deep_view() == m0 + spec_adjacent(ez.take(e as int)),
                e == 0 ==> prev is None,
                e > 0 ==> (prev matches Some(pz) && pz@ == ez[e - 1]),
            decreases events.len() - e,
        {
            let cat = stat_category(events[e].stat_key.as_str());
            let z = primary_zone(cat);
            assert(ez[e as int] == z@);
            let ghost before_moves = moves.deep_view();
            assert(ez.take(e as int + 1) =~= ez.take(e as int).push(z@));
            match prev {
                Some(pz) => {
                    let zc = z.clone();
                    moves.push((pz, zc));
                    assert(moves.deep_view() =~= before_moves.push((ez[e - 1], ez[e as int])));
                    assert(spec_adjacent(ez.take(e as int + 1)) =~= spec_adjacent(ez.take(e as int)).push((ez[e - 1], ez[e as int])));
                    assert(moves.deep_view() =~= m0 + spec_adjacent(ez.take(e as int + 1)));
                },
                None => {
                    assert(spec_adjacent(ez.take(e as int + 1)) =~= Seq::<(Seq<char>, Seq<char>)>::empty());
                    assert(spec_adjacent(ez.take(e as int)) =~= Seq::<(Seq<char>, Seq<char>)>::empty());
                },
            }
            let ghost before_zones = zones.deep_view();
            let z2 = z.clone();
            zones.push(z2);
            assert(zones.deep_view() =~= before_zones.push(z@));
            assert(zones.deep_view() =~= z0 + ez.take(e as int + 1));
            prev = Some(z);
            e = e + 1;
        }
        assert(ez.take(events.len() as int) =~= ez);
        assert(gs.last() == groups@[g as int]);
        g = g + 1;
    }
    assert(groups@.take(groups.len() as int) =~= groups@);
    (tally(&zones), tally_pairs(&moves))
}

/// Counts of same-tier, adjacent-tier and further moves between consecutive rows of the
/// same stat among the first `n` rows.
pub open spec fn spec_row_moves(rows: Seq<(String, i64)>, n: int) -> (nat, nat, nat)
    decreases n,
{
    if n <= 1 {
        (0, 0, 0)
    } else {
        let prev = spec_row_moves(rows, n - 1);
        if rows[n - 2].0@ == rows[n - 1].0@ {
            let d = rows[n - 1].1 - rows[n - 2].1;
            if d == 0 {
                (prev.0 + 1, prev.1, prev.2)
            } else if d == 1 || d == -1 {
                (prev.0, prev.1 + 1, prev.2)
            } else {
                (prev.0, prev.1, prev.2 + 1)
            }
        } else {
            prev
        }
    }
}

/// The stat of each row (among the first `n`) that repeats the stat of the row before it.
pub open spec fn spec_repeat_keys(rows: Seq<(String, i64)>, n: int) -> Seq<Seq<char>>
    decreases n,
{
    if n <= 1 {
        Seq::empty()
    } else if rows[n - 2].0@ == rows[n - 1].0@ {
        spec_repeat_keys(rows, n - 1).push(rows[n - 1].0@)
    } else {
        spec_repeat_keys(rows, n - 1)
    }
}

/// How the tier of each stat moved between its consecutive appearances.
#[derive(Clone, Debug, PartialEq, Eq)]
pub struct TierMoveStats {
    pub total_pairs: i64,
    pub stop_count: i64,
    pub step_count: i64,
    pub jump_count: i64,
    /// How many pairs each stat contributed, in order of first appearance.
    pub pairs_by_stat: Vec<(String, usize)>,
}

/// Classifies consecutive rows `(stat, tier)` of the same stat, the rows being ordered by
/// stat and then by time.
pub fn tier_move_stats(rows: &Vec<(String, i64)>) -> (r: TierMoveStats)
    requires
        rows.len() <= i64::MAX,
    ensures
        (r.stop_count as nat, r.step_count as nat, r.jump_count as nat) == spec_row_moves(rows@, rows.len() as int),
        r.total_pairs == r.stop_count + r.step_count + r.jump_count,
        spec_is_tally(spec_tally_view(r.pairs_by_stat@), spec_repeat_keys(rows@, rows.len() as int)),
{
    if rows.len() <= 1 {
        assert(spec_repeat_keys(rows@, rows.len() as int) =~= Seq::<Seq<char>>::empty());
        let empty: Vec<String> = Vec::new();
        return TierMoveStats {
            total_pairs: 0,
            stop_count: 0,
            step_count: 0,
            jump_count: 0,
            pairs_by_stat: tally(&empty),
        };
    }
    let mut stop: usize = 0;
    let mut step: usize = 0;
    let mut jump: usize = 0;
    let mut repeated: Vec<String> = Vec::new();
    let mut i: usize = 1;
    while i < rows.len()
        invariant
            1 <= i <= rows.len(),
            rows.len() <= i64::MAX,
            stop + step + jump < i,
            (stop as nat, step as nat, jump as nat) == spec_row_moves(rows@, i as int),
            repeated.deep_view() == spec_repeat_keys(rows@, i as int),
        decreases rows.len() - i,
    {
        if rows[i - 1].0 == rows[i].0 {
            let d: i128 = rows[i].1 as i128 - rows[i - 1].1 as i128;
            if d == 0 {
                stop = stop + 1;
            } else if d == 1 || d == -1 {
                step = step + 1;
            } else {
                jump = jump + 1;
            }
            repeated.push(rows[i].0.clone());
            assert(repeated.deep_view() =~= spec_repeat_keys(rows@, i as int).push(rows@[i as int].0@));
        }
        i = i + 1;
    }
    let pairs_by_stat = tally(&repeated);
    TierMoveStats {
        total_pairs: (stop + step + jump) as i64,
        stop_count: stop as i64,
        step_count: step as i64,
        jump_count: jump as i64,
        pairs_by_stat,
    }
}

proof fn lemma_row_moves_prefix(rows: Seq<(String, i64)>, longer: Seq<(String, i64)>, n: int)
    requires
        n <= rows.len(),
        n <= longer.len(),
        forall|i: int| 0 <= i < n ==> longer[i] == rows[i],
    ensures
        spec_row_moves(longer, n) == spec_row_moves(rows, n),
    decreases n,
{
    if n > 1 {
        lemma_row_moves_prefix(rows, longer, n - 1);
        assert(longer[n - 1] == rows[n - 1] && longer[n - 2] == rows[n - 2]);
    }
}

/// A row following a row of the same stat is compared with that row's tier: the same
/// tier counts as a stop, a tier one above or one below as a step, anything further as a
/// jump; a row following another stat changes no count.
pub proof fn law_row_move_classes(rows: Seq<(String, i64)>, next: (String, i64))
    requires
        rows.len() >= 1,
    ensures
        ({
            let before = spec_row_moves(rows, rows.len() as int);
            let after = spec_row_moves(rows.push(next), rows.len() as int + 1);
            let last = rows.last();
            &&& next.0@ != last.0@ ==> after == before
            &&& next.0@ == last.0@ && next.1 == last.1 ==> after == (before.0 + 1, before.1, before.2)
            &&& next.0@ == last.0@ && (next.1 == last.1 + 1 || next.1 == last.1 - 1) ==> after == (
                before.0,
                before.1 + 1,
                before.2,
            )
            &&& next.0@ == last.0@ && (next.1 >= last.1 + 2 || next.1 <= last.1 - 2) ==> after == (
                before.0,
                before.1,
                before.2 + 1,
            )
        }),
{
    let n = rows.len() as int;
    let longer = rows.push(next);
    lemma_row_moves_prefix(rows, longer, n);
    assert(longer[n - 1] == rows.last());
    assert(longer[n] == next);
}

/// Turning every tier upside down (negating it) leaves the numbers of stops, steps and
/// jumps unchanged: a move is counted by its size, not its direction.
pub proof fn law_row_moves_mirror(rows: Seq<(String, i64)>, mirrored: Seq<(String, i64)>, n: int)
    requires
        n <= rows.len(),
        mirrored.len() == rows.len(),
        forall|i: int| 0 <= i < rows.len() ==> (#[trigger] mirrored[i]).0@ == rows[i].0@ && mirrored[i].1 == -rows[i].1,
    ensures
        spec_row_moves(mirrored, n) == spec_row_moves(rows, n),
    decreases n,
{
    if n > 1 {
        law_row_moves_mirror(rows, mirrored, n - 1);
        assert(mirrored[n - 1].1 == -rows[n - 1].1);
        assert(mirrored[n - 2].1 == -rows[n - 2].1);
    }
}

} // verus!
