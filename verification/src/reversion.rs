//! The integer side of the mean-reversion analysis of one stat over the global timeline:
//! where it appears, the gaps between appearances, and how often it appears in the window
//! after an appearance, grouped by how often it appeared in the window before.
use vstd::prelude::*;

verus! {

/// The positions below `n` that hold `k`, in order.
pub open spec fn spec_positions(keys: Seq<Seq<char>>, k: Seq<char>, n: int) -> Seq<int>
    decreases n,
{
    if n <= 0 {
        Seq::empty()
    } else if keys[n - 1] == k {
        spec_positions(keys, k, n - 1).push(n - 1)
    } else {
        spec_positions(keys, k, n - 1)
    }
}

/// The distances between consecutive positions.
pub open spec fn spec_gaps(pos: Seq<int>) -> Seq<int> {
    if pos.len() == 0 {
        Seq::empty()
    } else {
        Seq::new((pos.len() - 1) as nat, |i: int| pos[i + 1] - pos[i])
    }
}

/// How many positions in `lo..hi` hold `k`.
pub open spec fn spec_count_in(keys: Seq<Seq<char>>, k: Seq<char>, lo: int, hi: int) -> nat
    decreases hi - lo,
{
    if hi <= lo {
        0
    } else {
        spec_count_in(keys, k, lo, hi - 1) + if keys[hi - 1] == k {
            1nat
        } else {
            0nat
        }
    }
}

/// Appearances of `k` in the `w` positions before `p`.
pub open spec fn spec_before(keys: Seq<Seq<char>>, k: Seq<char>, w: int, p: int) -> nat {
    spec_count_in(keys, k, if p > w { p - w } else { 0 }, p)
}

/// Appearances of `k` in the `w` positions after `p`.
pub open spec fn spec_after(keys: Seq<Seq<char>>, k: Seq<char>, w: int, p: int) -> nat {
    spec_count_in(keys, k, p + 1, if p + 1 + w < keys.len() { p + 1 + w } else { keys.len() as int })
}

/// The bucket of an appearance: appearances before it, capped at 3.
pub open spec fn spec_bucket(keys: Seq<Seq<char>>, k: Seq<char>, w: int, p: int) -> int {
    if spec_before(keys, k, w, p) >= 3 {
        3
    } else {
        spec_before(keys, k, w, p) as int
    }
}

/// Over the first `m` appearances, how many fall in bucket `b` and how many appearances
/// follow them in total.
pub open spec fn spec_bucket_totals(keys: Seq<Seq<char>>, k: Seq<char>, w: int, pos: Seq<int>, b: int, m: int) -> (nat, nat)
    decreases m,
{
    if m <= 0 {
        (0, 0)
    } else {
        let prev = spec_bucket_totals(keys, k, w, pos, b, m - 1);
        if spec_bucket(keys, k, w, pos[m - 1]) == b {
            (prev.0 + 1, prev.1 + spec_after(keys, k, w, pos[m - 1]))
        } else {
            prev
        }
    }
}

/// One bucket of appearances: how many appearances came after `prev_window_count` others
/// (3 meaning at least 3) in the window before, and how many followed in the window after.
#[derive(Clone, Debug, PartialEq, Eq)]
pub struct ReversionBucketCounts {
    pub prev_window_count: i64,
    pub sample_count: i64,
    pub next_window_total: i64,
}

/// The integer series of one stat.
#[derive(Clone, Debug, PartialEq, Eq)]
pub struct ReversionCounts {
    pub total_count: i64,
    pub positions: Vec<usize>,
    pub gaps: Vec<i64>,
    /// The non-empty buckets, by increasing `prev_window_count`.
    pub buckets: Vec<ReversionBucketCounts>,
}

/// The window size for a requested one: 10 by default, kept within 2..=40.
pub open spec fn spec_window(window_size: Option<i64>) -> int {
    match window_size {
        Some(v) => if v < 2 { 2 } else if v > 40 { 40 } else { v as int },
        None => 10,
    }
}

/// The window size used: the requested one (10 by default) kept within 2..=40.
pub fn reversion_window(window_size: Option<i64>) -> (r: usize)
    ensures
        r as int == spec_window(window_size),
        2 <= r <= 40,
{
    let w: i64 = match window_size {
        Some(v) => v,
        None => 10,
    };
    let w2: i64 = if w < 2 { 2 } else { w };
    let w3: i64 = if w2 > 40 { 40 } else { w2 };
    w3 as usize
}

fn count_in(keys: &Vec<String>, k: &String, lo: usize, hi: usize) -> (r: usize)
    requires
        lo <= hi <= keys.len(),
    ensures
        r == spec_count_in(keys.deep_view(), k@, lo as int, hi as int),
        r <= hi - lo,
{
    let mut c: usize = 0;
    let mut i: usize = lo;
    while i < hi
        invariant
            lo <= i <= hi,
            hi <= keys.len(),
            c <= i - lo,
            c == spec_count_in(keys.deep_view(), k@, lo as int, i as int),
        decreases hi - i,
    {
        if keys[i] == *k {
            c = c + 1;
        }
        i = i + 1;
    }
    c
}

/// The appearances of `stat_key` in the timeline `keys`, their gaps and window buckets.
pub fn reversion_counts(keys: &Vec<String>, stat_key: &String, window_size: Option<i64>) -> (r: ReversionCounts)
    requires
        keys.len() <= 0x1_0000_0000,
    ensures
        r.positions@.map_values(|p: usize| p as int) == spec_positions(keys.deep_view(), stat_key@, keys.len() as int),
        r.total_count == r.positions.len(),
        r.gaps@.map_values(|g: i64| g as int) == spec_gaps(spec_positions(keys.deep_view(), stat_key@, keys.len() as int)),
        forall|i: int| 0 <= i < r.buckets.len() ==> {
            let bk = #[trigger] r.buckets@[i];
            let t = spec_bucket_totals(
                keys.deep_view(),
                stat_key@,
                spec_window(window_size),
                spec_positions(keys.deep_view(), stat_key@, keys.len() as int),
                bk.prev_window_count as int,
                r.positions.len() as int,
            );
            &&& 0 <= bk.prev_window_count <= 3
            &&& bk.sample_count == t.0
            &&& bk.next_window_total == t.1
            &&& bk.sample_count > 0
        },
        forall|i: int, j: int| 0 <= i < j < r.buckets.len() ==> r.buckets@[i].prev_window_count < r.buckets@[j].prev_window_count,
        forall|b: int| 0 <= b <= 3 && spec_bucket_totals(
            keys.deep_view(),
            stat_key@,
            spec_window(window_size),
            spec_positions(keys.deep_view(), stat_key@, keys.len() as int),
            b,
            r.positions.len() as int,
        ).0 > 0 ==> exists|i: int| 0 <= i < r.buckets.len() && r.buckets@[i].prev_window_count == b,
{
    let w: usize = reversion_window(window_size);
    let ghost kv = keys.deep_view();
    let n = keys.len();
    let mut positions: Vec<usize> = Vec::new();
    let mut i: usize = 0;
    while i < n
        invariant
            n == keys.len(),
            kv == keys.deep_view(),
            i <= n,
            positions.len() <= i,
            positions@.map_values(|p: usize| p as int) == spec_positions(kv, stat_key@, i as int),
            forall|j: int| 0 <= j < positions.len() ==> positions@[j] < i,
            forall|a: int, b: int| 0 <= a < b < positions.len() ==> positions@[a] < positions@[b],
        decreases n - i,
    {
        if keys[i] == *stat_key {
            positions.push(i);
            assert(positions@.map_values(|p: usize| p as int) =~= spec_positions(kv, stat_key@, i as int).push(i as int));
        }
        i = i + 1;
    }
    let ghost pos = spec_positions(kv, stat_key@, n as int);
    let mut gaps: Vec<i64> = Vec::new();
    if positions.len() > 0 {
        let mut j: usize = 1;
        while j < positions.len()
            invariant
                1 <= j <= positions.len(),
                n == keys.len(),
                n <= 0x1_0000_0000,
                positions@.map_values(|p: usize| p as int) == pos,
                forall|x: int| 0 <= x < positions.len() ==> positions@[x] < n,
                forall|a: int, b: int| 0 <= a < b < positions.len() ==> positions@[a] < positions@[b],
                gaps.len() == j - 1,
                forall|x: int| 0 <= x < j - 1 ==> #[trigger] gaps@[x] == positions@[x + 1] - positions@[x],
            decreases positions.len() - j,
        {
            let gap = positions[j] - positions[j - 1];
            gaps.push(gap as i64);
            j = j + 1;
        }
    }
    assert(gaps@.map_values(|g: i64| g as int) =~= spec_gaps(pos));
    let mut counts: Vec<u64> = vec![0, 0, 0, 0];
    let mut sums: Vec<u64> = vec![0, 0, 0, 0];
    let mut m: usize = 0;
    while m < positions.len()
        invariant
            n == keys.len(),
            kv == keys.deep_view(),
            n <= 0x1_0000_0000,
            2 <= w <= 40,
            w as int == spec_window(window_size),
            m <= positions.len(),
            positions.len() <= n,
            positions@.map_values(|p: usize| p as int) == pos,
            forall|x: int| 0 <= x < positions.len() ==> positions@[x] < n,
            counts.len() == 4,
            sums.len() == 4,
            forall|b: int| 0 <= b < 4 ==> (#[trigger] counts@[b] as nat, sums@[b] as nat) == spec_bucket_totals(kv, stat_key@, spec_window(window_size), pos, b, m as int),
            forall|b: int| 0 <= b < 4 ==> #[trigger] counts@[b] <= m,
            forall|b: int| 0 <= b < 4 ==> #[trigger] sums@[b] <= m * 40,
        decreases positions.len() - m,
    {
        let p = positions[m];
        assert(pos[m as int] == p);
        let lo: usize = if p > w { p - w } else { 0 };
        let before = count_in(keys, stat_key, lo, p);
        let hi: usize = if n - (p + 1) > w { p + 1 + w } else { n };
        let after = count_in(keys, stat_key, p + 1, hi);
        let b: usize = if before >= 3 { 3 } else { before };
        assert(b as int == spec_bucket(kv, stat_key@, w as int, p as int));
        assert(after as nat == spec_after(kv, stat_key@, w as int, p as int));
        let c = counts[b];
        let t = sums[b];
        assert(after <= 40);
        assert(t <= m * 40);
        let ghost old_counts = counts@;
        let ghost old_sums = sums@;
        counts.set(b, c + 1);
        sums.set(b, t + after as u64);
        assert forall|x: int| 0 <= x < 4 implies #[trigger] sums@[x] <= (m + 1) * 40 by {
            if x != b {
                assert(sums@[x] == old_sums[x]);
                assert(old_sums[x] <= m * 40);
            }
        }
        m = m + 1;
    }
    let mut buckets: Vec<ReversionBucketCounts> = Vec::new();
    let mut b: usize = 0;
    while b < 4
        invariant
            b <= 4,
            m == positions.len(),
            positions.len() <= 0x1_0000_0000,
            counts.len() == 4,
            sums.len() == 4,
            forall|x: int| 0 <= x < 4 ==> (#[trigger] counts@[x] as nat, sums@[x] as nat) == spec_bucket_totals(kv, stat_key@, spec_window(window_size), pos, x, m as int),
            forall|x: int| 0 <= x < 4 ==> #[trigger] counts@[x] <= m,
            forall|x: int| 0 <= x < 4 ==> #[trigger] sums@[x] <= m * 40,
            forall|i: int| 0 <= i < buckets.len() ==> {
                let bk = #[trigger] buckets@[i];
                let t = spec_bucket_totals(kv, stat_key@, spec_window(window_size), pos, bk.prev_window_count as int, m as int);
                &&& 0 <= bk.prev_window_count < b
                &&& bk.sample_count == t.0
                &&& bk.next_window_total == t.1
                &&& bk.sample_count > 0
            },
            forall|i: int, j: int| 0 <= i < j < buckets.len() ==> buckets@[i].prev_window_count < buckets@[j].prev_window_count,
            forall|x: int| 0 <= x < b && spec_bucket_totals(kv, stat_key@, spec_window(window_size), pos, x, m as int).0 > 0 ==> exists|i: int| 0 <= i < buckets.len() && buckets@[i].prev_window_count == x,
        decreases 4 - b,
    {
        if counts[b] > 0 {
            let ghost old_b = buckets@;
            buckets.push(ReversionBucketCounts {
                prev_window_count: b as i64,
                sample_count: counts[b] as i64,
                next_window_total: sums[b] as i64,
            });
            assert forall|x: int|
                0 <= x < b + 1 && spec_bucket_totals(kv, stat_key@, spec_window(window_size), pos, x, m as int).0 > 0
                implies exists|i: int| 0 <= i < buckets.len() && buckets@[i].prev_window_count == x by {
                if x == b {
                    assert(buckets@[buckets.len() - 1].prev_window_count == x);
                } else {
                    let i = choose|i: int| 0 <= i < old_b.len() && old_b[i].prev_window_count == x;
                    assert(buckets@[i] == old_b[i]);
                }
            }
        }
        b = b + 1;
    }
    let ghost bv = buckets@;
    let r = ReversionCounts { total_count: positions.len() as i64, positions, gaps, buckets };
    assert forall|x: int|
        0 <= x <= 3 && spec_bucket_totals(
            keys.deep_view(),
            stat_key@,
            spec_window(window_size),
            spec_positions(keys.deep_view(), stat_key@, keys.len() as int),
            x,
            r.positions.len() as int,
        ).0 > 0 implies exists|i: int| 0 <= i < r.buckets.len() && r.buckets@[i].prev_window_count == x by {
        assert(x < b);
        assert(spec_bucket_totals(kv, stat_key@, spec_window(window_size), pos, x, m as int).0 > 0);
        let i = choose|i: int| 0 <= i < bv.len() && bv[i].prev_window_count == x;
        assert(r.buckets@[i] == bv[i]);
    }
    r
}

/// How often `k` occurs and how many positions ago it was last seen (the length of the
/// timeline when it never occurs): the two integers the reversion score of a stat rests on.
pub open spec fn spec_recency(keys: Seq<Seq<char>>, k: Seq<char>) -> (nat, int) {
    let pos = spec_positions(keys, k, keys.len() as int);
    (
        pos.len(),
        if pos.len() == 0 { keys.len() as int } else { keys.len() - 1 - pos.last() },
    )
}

proof fn lemma_positions_bound(keys: Seq<Seq<char>>, k: Seq<char>, n: int)
    requires
        0 <= n <= keys.len(),
    ensures
        forall|j: int| 0 <= j < spec_positions(keys, k, n).len() ==> 0 <= #[trigger] spec_positions(keys, k, n)[j] < n,
        spec_positions(keys, k, n).len() <= n,
    decreases n,
{
    if n > 0 {
        lemma_positions_bound(keys, k, n - 1);
    }
}

/// For each stat key, how often it occurs in the timeline and how long ago it last did.
pub fn recency_counts(keys: &Vec<String>, stat_keys: &Vec<String>) -> (r: Vec<(usize, usize)>)
    ensures
        r.len() == stat_keys.len(),
        forall|i: int| 0 <= i < r.len() ==> (#[trigger] r@[i].0 as nat, r@[i].1 as int) == spec_recency(
            keys.deep_view(),
            stat_keys@[i]@,
        ),
{
    let n = keys.len();
    let mut out: Vec<(usize, usize)> = Vec::new();
    let mut s: usize = 0;
    while s < stat_keys.len()
        invariant
            n == keys.len(),
            s <= stat_keys.len(),
            out.len() == s,
            forall|i: int| 0 <= i < s ==> (#[trigger] out@[i].0 as nat, out@[i].1 as int) == spec_recency(
                keys.deep_view(),
                stat_keys@[i]@,
            ),
        decreases stat_keys.len() - s,
    {
        let ghost k = stat_keys@[s as int]@;
        let mut count: usize = 0;
        let mut last: usize = 0;
        let mut i: usize = 0;
        while i < n
            invariant
                n == keys.len(),
                i <= n,
                s < stat_keys.len(),
                k == stat_keys@[s as int]@,
                count == spec_positions(keys.deep_view(), k, i as int).len(),
                count > 0 ==> last == spec_positions(keys.deep_view(), k, i as int).last(),
            decreases n - i,
        {
            proof {
                lemma_positions_bound(keys.deep_view(), k, i as int);
            }
            if keys[i] == stat_keys[s] {
                count = count + 1;
                last = i;
            }
            i = i + 1;
        }
        proof {
            lemma_positions_bound(keys.deep_view(), k, n as int);
        }
        let gap: usize = if count == 0 { n } else { n - 1 - last };
        out.push((count, gap));
        s = s + 1;
    }
    out
}

/// Every appearance falls in exactly one of the four buckets: their sample counts add up
/// to the number of appearances walked.
pub proof fn law_bucket_samples_total(keys: Seq<Seq<char>>, k: Seq<char>, w: int, pos: Seq<int>, m: int)
    requires
        0 <= m,
    ensures
        spec_bucket_totals(keys, k, w, pos, 0, m).0 + spec_bucket_totals(keys, k, w, pos, 1, m).0
            + spec_bucket_totals(keys, k, w, pos, 2, m).0 + spec_bucket_totals(keys, k, w, pos, 3, m).0 == m,
    decreases m,
{
    if m > 0 {
        law_bucket_samples_total(keys, k, w, pos, m - 1);
        let b = spec_bucket(keys, k, w, pos[m - 1]);
        assert(0 <= b <= 3);
    }
}

proof fn lemma_count_in_is_count(keys: Seq<Seq<char>>, k: Seq<char>, lo: int, hi: int)
    requires
        0 <= lo <= hi <= keys.len(),
    ensures
        spec_count_in(keys, k, lo, hi) == crate::tally::spec_count(keys.subrange(lo, hi), k),
    decreases hi - lo,
{
    if hi > lo {
        lemma_count_in_is_count(keys, k, lo, hi - 1);
        assert(keys.subrange(lo, hi).drop_last() =~= keys.subrange(lo, hi - 1));
        assert(keys.subrange(lo, hi).last() == keys[hi - 1]);
    } else {
        assert(keys.subrange(lo, hi).len() == 0);
    }
}

/// How each appearance is bucketed: an appearance at position `p` goes to the bucket of
/// the number of appearances among the `w` positions before it (`max(0, p - w)..p`),
/// capped at 3, and adds to that bucket one sample and the number of appearances among the
/// `w` positions after it (`p + 1..min(n, p + 1 + w)`).
pub proof fn law_reversion_bucket_of_appearance(keys: Seq<Seq<char>>, k: Seq<char>, w: int, pos: Seq<int>, b: int, m: int)
    requires
        0 <= m < pos.len(),
        0 <= pos[m] < keys.len(),
        0 <= w,
    ensures
        ({
            let p = pos[m];
            let lo = if p - w > 0 { p - w } else { 0 };
            let hi = if p + 1 + w < keys.len() { p + 1 + w } else { keys.len() as int };
            let before = crate::tally::spec_count(keys.subrange(lo, p), k);
            let after = crate::tally::spec_count(keys.subrange(p + 1, hi), k);
            let bucket = if before >= 3 { 3 } else { before as int };
            let t = spec_bucket_totals(keys, k, w, pos, b, m);
            spec_bucket_totals(keys, k, w, pos, b, m + 1) == if bucket == b {
                (t.0 + 1, t.1 + after)
            } else {
                t
            }
        }),
{
    let p = pos[m];
    let lo = if p - w > 0 { p - w } else { 0 };
    let hi = if p + 1 + w < keys.len() { p + 1 + w } else { keys.len() as int };
    lemma_count_in_is_count(keys, k, lo, p);
    lemma_count_in_is_count(keys, k, p + 1, hi);
}

/// The positions of a stat are exactly the places it appears, in increasing order: each
/// listed position holds the stat, and each place holding it is listed.
pub proof fn law_positions_are_appearances(keys: Seq<Seq<char>>, k: Seq<char>, n: int)
    requires
        0 <= n <= keys.len(),
    ensures
        forall|j: int| 0 <= j < spec_positions(keys, k, n).len() ==> {
            let p = #[trigger] spec_positions(keys, k, n)[j];
            0 <= p < n && keys[p] == k
        },
        forall|i: int, j: int| 0 <= i < j < spec_positions(keys, k, n).len() ==> spec_positions(keys, k, n)[i]
            < spec_positions(keys, k, n)[j],
        forall|q: int| 0 <= q < n && keys[q] == k ==> spec_positions(keys, k, n).contains(q),
    decreases n,
{
    if n > 0 {
        law_positions_are_appearances(keys, k, n - 1);
        lemma_positions_bound(keys, k, n - 1);
        let prev = spec_positions(keys, k, n - 1);
        if keys[n - 1] == k {
            let cur = prev.push(n - 1);
            assert(cur[cur.len() - 1] == n - 1);
            assert forall|q: int| 0 <= q < n && keys[q] == k implies cur.contains(q) by {
                if q < n - 1 {
                    let j = choose|j: int| 0 <= j < prev.len() && prev[j] == q;
                    assert(cur[j] == q);
                } else {
                    assert(cur[cur.len() - 1] == q);
                }
            }
        }
    }
}

} // verus!
