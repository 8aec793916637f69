//! Counts of which stat follows which inside an echo.
use vstd::prelude::*;
use crate::streaks::EventSlim;
use crate::sums::{lemma_sum_add, lemma_sum_single, spec_sum};

verus! {

/// The last position of `k` among the first `n` keys, or -1.
pub open spec fn spec_last_index(keys: Seq<Seq<char>>, k: Seq<char>, n: int) -> int
    decreases n,
{
    if n <= 0 {
        -1
    } else if keys[n - 1] == k {
        n - 1
    } else {
        spec_last_index(keys, k, n - 1)
    }
}

/// The index a stat key maps to (its last position in `keys`), or -1.
pub open spec fn spec_key_index(keys: Seq<Seq<char>>, k: Seq<char>) -> int {
    spec_last_index(keys, k, keys.len() as int)
}

pub proof fn lemma_last_index_bounds(keys: Seq<Seq<char>>, k: Seq<char>, n: int)
    requires
        0 <= n <= keys.len(),
    ensures
        -1 <= spec_last_index(keys, k, n) < n,
    decreases n,
{
    if n > 0 {
        lemma_last_index_bounds(keys, k, n - 1);
    }
}

/// The stat keys of an echo's events.
pub open spec fn spec_echo_keys(events: Seq<EventSlim>) -> Seq<Seq<char>> {
    events.map_values(|e: EventSlim| e.stat_key@)
}

/// Among the first `m` steps `s[p] -> s[p + 1]` of one echo, those whose keys map to
/// indices `a` and `b`.
pub open spec fn spec_echo_cell(keys: Seq<Seq<char>>, s: Seq<Seq<char>>, a: int, b: int, m: int) -> nat
    decreases m,
{
    if m <= 0 {
        0
    } else {
        spec_echo_cell(keys, s, a, b, m - 1) + if spec_key_index(keys, s[m - 1]) == a
            && spec_key_index(keys, s[m]) == b {
            1nat
        } else {
            0nat
        }
    }
}

/// Among the first `m` steps of one echo, those whose two keys both map to an index.
pub open spec fn spec_echo_steps(keys: Seq<Seq<char>>, s: Seq<Seq<char>>, m: int) -> nat
    decreases m,
{
    if m <= 0 {
        0
    } else {
        spec_echo_steps(keys, s, m - 1) + if spec_key_index(keys, s[m - 1]) >= 0
            && spec_key_index(keys, s[m]) >= 0 {
            1nat
        } else {
            0nat
        }
    }
}

/// The number of steps of an echo.
pub open spec fn spec_step_count(n: int) -> int {
    if n > 0 {
        n - 1
    } else {
        0
    }
}

/// Steps from index `a` to index `b` over the first `g` echoes.
pub open spec fn spec_cell(keys: Seq<Seq<char>>, groups: Seq<(String, Vec<EventSlim>)>, a: int, b: int, g: int) -> nat
    decreases g,
{
    if g <= 0 {
        0
    } else {
        let s = spec_echo_keys(groups[g - 1].1@);
        spec_cell(keys, groups, a, b, g - 1) + spec_echo_cell(keys, s, a, b, spec_step_count(s.len() as int))
    }
}

/// Counted steps over the first `g` echoes.
pub open spec fn spec_steps(keys: Seq<Seq<char>>, groups: Seq<(String, Vec<EventSlim>)>, g: int) -> nat
    decreases g,
{
    if g <= 0 {
        0
    } else {
        let s = spec_echo_keys(groups[g - 1].1@);
        spec_steps(keys, groups, g - 1) + spec_echo_steps(keys, s, spec_step_count(s.len() as int))
    }
}

/// The number of events of the first `g` echoes.
pub open spec fn spec_event_total(groups: Seq<(String, Vec<EventSlim>)>, g: int) -> nat
    decreases g,
{
    if g <= 0 {
        0
    } else {
        spec_event_total(groups, g - 1) + groups[g - 1].1@.len()
    }
}

/// The index of `k` in `keys` (its last position), if any.
pub fn key_index(keys: &[String], k: &String) -> (r: Option<usize>)
    ensures
        r matches Some(i) ==> i < keys.len() && i == spec_key_index(keys.deep_view(), k@),
        r is None ==> spec_key_index(keys.deep_view(), k@) == -1,
{
    let mut n: usize = keys.len();
    while n > 0
        invariant
            n <= keys.len(),
            spec_key_index(keys.deep_view(), k@) == spec_last_index(keys.deep_view(), k@, n as int),
        decreases n,
    {
        if keys[n - 1] == *k {
            assert(keys.deep_view()[n - 1] == k@);
            return Some(n - 1);
        }
        n = n - 1;
    }
    None
}

/// Step counts between stats: `matrix[a][b]` counts the steps inside an echo from a stat
/// with index `a` in `keys` to one with index `b`; `total` counts all such steps.
#[derive(Clone, Debug, PartialEq, Eq)]
pub struct TransitionCounts {
    pub matrix: Vec<Vec<i64>>,
    pub total: i64,
}

/// Counts the steps between consecutive events of each echo.
pub fn count_transitions(keys: &[String], groups: &Vec<(String, Vec<EventSlim>)>) -> (r: TransitionCounts)
    requires
        spec_event_total(groups@, groups.len() as int) <= i64::MAX,
    ensures
        r.matrix.len() == keys.len(),
        forall|a: int| 0 <= a < keys.len() ==> #[trigger] r.matrix@[a].len() == keys.len(),
        forall|a: int, b: int| 0 <= a < keys.len() && 0 <= b < keys.len() ==>
            #[trigger] r.matrix@[a]@[b] == spec_cell(keys.deep_view(), groups@, a, b, groups.len() as int),
        r.total == spec_steps(keys.deep_view(), groups@, groups.len() as int),
{
    let ghost kv = keys.deep_view();
    let n = keys.len();
    let mut matrix: Vec<Vec<i64>> = Vec::new();
    let mut a: usize = 0;
    while a < n
        invariant
            n == keys.len(),
            a <= n,
            matrix.len() == a,
            forall|x: int| 0 <= x < a ==> #[trigger] matrix@[x]@ == Seq::new(n as nat, |b: int| 0i64),
        decreases n - a,
    {
        let mut row: Vec<i64> = Vec::new();
        let mut b: usize = 0;
        while b < n
            invariant
                b <= n,
                row@ == Seq::new(b as nat, |y: int| 0i64),
            decreases n - b,
        {
            row.push(0);
            b = b + 1;
            assert(row@ =~= Seq::new(b as nat, |y: int| 0i64));
        }
        matrix.push(row);
        a = a + 1;
    }
    let mut total: i64 = 0;
    let mut g: usize = 0;
    while g < groups.len()
        invariant
            n == keys.len(),
            kv == keys.deep_view(),
            g <= groups.len(),
            spec_event_total(groups@, groups.len() as int) <= i64::MAX,
            matrix.len() == n,
            forall|x: int| 0 <= x < n ==> #[trigger] matrix@[x].len() == n,
            forall|x: int, y: int| 0 <= x < n && 0 <= y < n ==>
                #[trigger] matrix@[x]@[y] == spec_cell(kv, groups@, x, y, g as int),
            forall|x: int, y: int| 0 <= x < n && 0 <= y < n ==> #[trigger] matrix@[x]@[y] <= total,
            total == spec_steps(kv, groups@, g as int),
            total <= spec_event_total(groups@, g as int),
        decreases groups.len() - g,
    {
        proof {
            lemma_event_total_mono(groups@, g as int + 1, groups.len() as int);
        }
        let events = &groups[g].1;
        let ghost s = spec_echo_keys(events@);
        let ghost base_total = total;
        let steps: usize = if events.len() > 0 { events.len() - 1 } else { 0 };
        let mut p: usize = 0;
        while p < steps
            invariant
                n == keys.len(),
                kv == keys.deep_view(),
                g < groups.len(),
                events == &groups@[g as int].1,
                s == spec_echo_keys(events@),
                steps == spec_step_count(s.len() as int),
                p <= steps,
                matrix.len() == n,
                forall|x: int| 0 <= x < n ==> #[trigger] matrix@[x].len() == n,
                forall|x: int, y: int| 0 <= x < n && 0 <= y < n ==>
                    #[trigger] matrix@[x]@[y] == spec_cell(kv, groups@, x, y, g as int) + spec_echo_cell(kv, s, x, y, p as int),
                forall|x: int, y: int| 0 <= x < n && 0 <= y < n ==> #[trigger] matrix@[x]@[y] <= total,
                total == base_total + spec_echo_steps(kv, s, p as int),
                base_total <= spec_event_total(groups@, g as int),
                total <= base_total + p,
                spec_event_total(groups@, g as int + 1) <= i64::MAX,
            decreases steps - p,
        {
            assert(s[p as int] == events@[p as int].stat_key@);
            assert(s[p + 1] == events@[p + 1].stat_key@);
            let from = key_index(keys, &events[p].stat_key);
            let to = key_index(keys, &events[p + 1].stat_key);
            match (from, to) {
                (Some(fi), Some(ti)) => {
                    assert(matrix@[fi as int].len() == n);
                    assert(matrix@[fi as int]@[ti as int] <= total);
                    let cur = matrix[fi][ti];
                    matrix[fi][ti] = cur + 1;
                    total = total + 1;
                },
                _ => {
                    proof {
                        lemma_last_index_bounds(kv, s[p as int], n as int);
                        lemma_last_index_bounds(kv, s[p + 1], n as int);
                    }
                },
            }
            p = p + 1;
        }
        g = g + 1;
    }
    TransitionCounts { matrix, total }
}

proof fn lemma_event_total_mono(groups: Seq<(String, Vec<EventSlim>)>, g: int, h: int)
    requires
        0 <= g <= h,
    ensures
        spec_event_total(groups, g) <= spec_event_total(groups, h),
    decreases h - g,
{
    if g < h {
        lemma_event_total_mono(groups, g, h - 1);
    }
}

/// The steps of one echo counted in all cells: the sum over source and target indices.
pub open spec fn spec_echo_grid(keys: Seq<Seq<char>>, s: Seq<Seq<char>>, m: int) -> nat {
    spec_sum(|a: int| spec_sum(|b: int| spec_echo_cell(keys, s, a, b, m), keys.len() as int), keys.len() as int)
}

proof fn lemma_echo_grid(keys: Seq<Seq<char>>, s: Seq<Seq<char>>, m: int)
    ensures
        spec_echo_grid(keys, s, m) == spec_echo_steps(keys, s, m),
    decreases m,
{
    let k = keys.len() as int;
    if m <= 0 {
        let zero = |a: int| spec_sum(|b: int| spec_echo_cell(keys, s, a, b, m), k);
        assert forall|a: int| 0 <= a < k implies #[trigger] zero(a) == 0 by {
            crate::sums::lemma_sum_zero(|b: int| spec_echo_cell(keys, s, a, b, m), k);
        }
        crate::sums::lemma_sum_zero(zero, k);
    } else {
        lemma_echo_grid(keys, s, m - 1);
        let ia = spec_key_index(keys, s[m - 1]);
        let ib = spec_key_index(keys, s[m]);
        lemma_last_index_bounds(keys, s[m - 1], k);
        lemma_last_index_bounds(keys, s[m], k);
        let row_new = |a: int| spec_sum(|b: int| spec_echo_cell(keys, s, a, b, m), k);
        let row_old = |a: int| spec_sum(|b: int| spec_echo_cell(keys, s, a, b, m - 1), k);
        let row_ind = |a: int| if a == ia && 0 <= ib < k { 1nat } else { 0nat };
        assert forall|a: int| 0 <= a < k implies #[trigger] row_new(a) == row_old(a) + row_ind(a) by {
            let ind = |b: int| if a == ia && b == ib { 1nat } else { 0nat };
            lemma_sum_add(
                |b: int| spec_echo_cell(keys, s, a, b, m - 1),
                ind,
                |b: int| spec_echo_cell(keys, s, a, b, m),
                k,
            );
            lemma_sum_single(ind, ib, if a == ia { 1nat } else { 0nat }, k);
        }
        lemma_sum_add(row_old, row_ind, row_new, k);
        lemma_sum_single(row_ind, ia, if 0 <= ib < k { 1nat } else { 0nat }, k);
    }
}

/// All counted steps over the first `g` echoes, summed over every cell.
pub open spec fn spec_grid(keys: Seq<Seq<char>>, groups: Seq<(String, Vec<EventSlim>)>, g: int) -> nat {
    spec_sum(|a: int| spec_sum(|b: int| spec_cell(keys, groups, a, b, g), keys.len() as int), keys.len() as int)
}

/// The transition matrix accounts for every counted step: its cells add up to the total.
pub proof fn law_transition_cells_sum_to_total(keys: Seq<Seq<char>>, groups: Seq<(String, Vec<EventSlim>)>, g: int)
    ensures
        spec_grid(keys, groups, g) == spec_steps(keys, groups, g),
    decreases g,
{
    let k = keys.len() as int;
    if g <= 0 {
        let zero = |a: int| spec_sum(|b: int| spec_cell(keys, groups, a, b, g), k);
        assert forall|a: int| 0 <= a < k implies #[trigger] zero(a) == 0 by {
            crate::sums::lemma_sum_zero(|b: int| spec_cell(keys, groups, a, b, g), k);
        }
        crate::sums::lemma_sum_zero(zero, k);
    } else {
        law_transition_cells_sum_to_total(keys, groups, g - 1);
        let s = spec_echo_keys(groups[g - 1].1@);
        let m = spec_step_count(s.len() as int);
        lemma_echo_grid(keys, s, m);
        let row_new = |a: int| spec_sum(|b: int| spec_cell(keys, groups, a, b, g), k);
        let row_old = |a: int| spec_sum(|b: int| spec_cell(keys, groups, a, b, g - 1), k);
        let row_echo = |a: int| spec_sum(|b: int| spec_echo_cell(keys, s, a, b, m), k);
        assert forall|a: int| 0 <= a < k implies #[trigger] row_new(a) == row_old(a) + row_echo(a) by {
            lemma_sum_add(
                |b: int| spec_cell(keys, groups, a, b, g - 1),
                |b: int| spec_echo_cell(keys, s, a, b, m),
                |b: int| spec_cell(keys, groups, a, b, g),
                k,
            );
        }
        lemma_sum_add(row_old, row_echo, row_new, k);
    }
}

proof fn lemma_echo_cell_prefix(keys: Seq<Seq<char>>, s: Seq<Seq<char>>, t: Seq<Seq<char>>, a: int, b: int, m: int)
    requires
        m < s.len(),
        m < t.len(),
        forall|i: int| 0 <= i <= m ==> s[i] == t[i],
    ensures
        spec_echo_cell(keys, s, a, b, m) == spec_echo_cell(keys, t, a, b, m),
    decreases m,
{
    if m > 0 {
        lemma_echo_cell_prefix(keys, s, t, a, b, m - 1);
        assert(s[m - 1] == t[m - 1] && s[m] == t[m]);
    }
}

proof fn lemma_cell_prefix(
    keys: Seq<Seq<char>>,
    g1: Seq<(String, Vec<EventSlim>)>,
    g2: Seq<(String, Vec<EventSlim>)>,
    a: int,
    b: int,
    g: int,
)
    requires
        g <= g1.len(),
        g <= g2.len(),
        forall|i: int| 0 <= i < g ==> g1[i] == g2[i],
    ensures
        spec_cell(keys, g1, a, b, g) == spec_cell(keys, g2, a, b, g),
    decreases g,
{
    if g > 0 {
        lemma_cell_prefix(keys, g1, g2, a, b, g - 1);
        assert(g1[g - 1] == g2[g - 1]);
    }
}

/// Every step inside an echo is counted from the earlier event's stat to the later one's:
/// when an echo gets one more event `e` after its last event `l`, exactly the cell at
/// (index of `l`'s stat, index of `e`'s stat) grows by one, and every other cell stays.
pub proof fn law_step_counted_from_earlier_to_later(
    keys: Seq<Seq<char>>,
    before: Seq<(String, Vec<EventSlim>)>,
    after: Seq<(String, Vec<EventSlim>)>,
    e: EventSlim,
    a: int,
    b: int,
)
    requires
        before.len() == after.len(),
        before.len() >= 1,
        forall|i: int| 0 <= i < before.len() - 1 ==> after[i] == before[i],
        before.last().1@.len() >= 1,
        after.last().1@ == before.last().1@.push(e),
    ensures
        spec_cell(keys, after, a, b, after.len() as int) == spec_cell(keys, before, a, b, before.len() as int)
            + if spec_key_index(keys, before.last().1@.last().stat_key@) == a && spec_key_index(keys, e.stat_key@) == b {
            1int
        } else {
            0int
        },
{
    let n = before.len() as int;
    lemma_cell_prefix(keys, before, after, a, b, n - 1);
    let sb = spec_echo_keys(before[n - 1].1@);
    let sa = spec_echo_keys(after[n - 1].1@);
    assert(sa =~= sb.push(e.stat_key@));
    let mb = sb.len() - 1;
    assert(spec_step_count(sb.len() as int) == mb);
    assert(spec_step_count(sa.len() as int) == mb + 1);
    lemma_echo_cell_prefix(keys, sa, sb, a, b, mb);
    assert(sa[mb] == before.last().1@.last().stat_key@);
    assert(sa[mb + 1] == e.stat_key@);
}

/// A stat's index is its last position in `keys`; a stat missing from `keys` has none
/// (-1), and its steps are counted in no cell.
pub proof fn law_key_index_is_last_position(keys: Seq<Seq<char>>, k: Seq<char>)
    ensures
        -1 <= spec_key_index(keys, k) < keys.len(),
        spec_key_index(keys, k) >= 0 ==> keys[spec_key_index(keys, k)] == k,
        forall|q: int| spec_key_index(keys, k) < q < keys.len() ==> keys[q] != k,
{
    lemma_last_index_facts(keys, k, keys.len() as int);
}

proof fn lemma_last_index_facts(keys: Seq<Seq<char>>, k: Seq<char>, n: int)
    requires
        0 <= n <= keys.len(),
    ensures
        -1 <= spec_last_index(keys, k, n) < n,
        spec_last_index(keys, k, n) >= 0 ==> keys[spec_last_index(keys, k, n)] == k,
        forall|q: int| spec_last_index(keys, k, n) < q < n ==> keys[q] != k,
    decreases n,
{
    if n > 0 {
        lemma_last_index_facts(keys, k, n - 1);
    }
}

/// An echo with at most one event has no step: adding it leaves every cell as it was.
pub proof fn law_single_event_echo_adds_nothing(
    keys: Seq<Seq<char>>,
    groups: Seq<(String, Vec<EventSlim>)>,
    echo: (String, Vec<EventSlim>),
    a: int,
    b: int,
)
    requires
        echo.1@.len() <= 1,
    ensures
        spec_cell(keys, groups.push(echo), a, b, groups.len() as int + 1) == spec_cell(keys, groups, a, b, groups.len() as int),
{
    let n = groups.len() as int;
    lemma_cell_prefix(keys, groups, groups.push(echo), a, b, n);
    assert(groups.push(echo)[n] == echo);
}

} // verus!
