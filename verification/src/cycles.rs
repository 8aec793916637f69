//! The manual cycle analysis of a day's sequence: from a chosen start, the sequence is cut
//! into cycles of a chosen length; the shapes of the full cycles are counted, the stats at
//! the position that comes next are counted, and guessed shapes are checked against every
//! window of every full cycle.
use vstd::prelude::*;
use vstd::slice::slice_subrange;
use crate::shape::{shape_signature, spec_shape};
use crate::tally::{spec_is_tally, spec_tally_view, tally};
use crate::text::same_text;

verus! {

/// Cycle `c` (counted from 0) of the tail.
pub open spec fn spec_cycle(tail: Seq<Seq<char>>, len: int, c: int) -> Seq<Seq<char>> {
    tail.subrange(c * len, c * len + len)
}

/// The shapes of the full cycles, in order.
pub open spec fn spec_cycle_shapes(tail: Seq<Seq<char>>, len: int) -> Seq<Seq<char>> {
    Seq::new(((tail.len() as int) / len) as nat, |c: int| spec_shape(spec_cycle(tail, len, c)))
}

/// The stats among the first `n` of the tail that stand at cycle position `pos` (from 1).
pub open spec fn spec_position_stats(tail: Seq<Seq<char>>, len: int, pos: int, n: int) -> Seq<Seq<char>>
    decreases n,
{
    if n <= 0 {
        Seq::empty()
    } else if (n - 1) % len + 1 == pos {
        spec_position_stats(tail, len, pos, n - 1).push(tail[n - 1])
    } else {
        spec_position_stats(tail, len, pos, n - 1)
    }
}

/// The counts of a manual cycle analysis.
#[derive(Clone, Debug, PartialEq, Eq)]
pub struct ManualCycleCounts {
    /// How many full cycles the tail holds.
    pub full_cycles: usize,
    /// The position (from 1) in its cycle of the next stat.
    pub next_cycle_pos: usize,
    /// Each distinct shape of a full cycle, with how many cycles have it.
    pub cycle_shapes: Vec<(String, usize)>,
    /// Each stat seen at the next position in earlier cycles, with how often.
    pub position_counts: Vec<(String, usize)>,
    /// How many stats stand at the next position in earlier cycles.
    pub position_total: usize,
}

proof fn lemma_cycle_bound(c: int, len: int, n: int)
    requires
        0 <= c < n / len,
        len > 0,
        n >= 0,
    ensures
        c * len + len <= n,
        0 <= c * len,
{
    assert(c * len + len <= n) by (nonlinear_arith)
        requires
            0 <= c < n / len,
            len > 0,
            n >= 0,
    {
        assert(c + 1 <= n / len);
        assert((c + 1) * len <= (n / len) * len);
        assert((n / len) * len <= n);
    }
    assert(0 <= c * len) by (nonlinear_arith)
        requires
            0 <= c,
            len > 0,
    ;
}

/// Counts the cycles of `seq` from `start` on with cycles of `cycle_len` stats.
pub fn manual_cycle_counts(seq: &Vec<String>, start: usize, cycle_len: usize) -> (r: ManualCycleCounts)
    requires
        start < seq.len(),
        cycle_len >= 2,
    ensures
        ({
            let tail = seq.deep_view().subrange(start as int, seq.len() as int);
            &&& r.full_cycles == (tail.len() as int) / (cycle_len as int)
            &&& r.next_cycle_pos == (tail.len() as int) % (cycle_len as int) + 1
            &&& spec_is_tally(spec_tally_view(r.cycle_shapes@), spec_cycle_shapes(tail, cycle_len as int))
            &&& spec_is_tally(
                spec_tally_view(r.position_counts@),
                spec_position_stats(tail, cycle_len as int, r.next_cycle_pos as int, tail.len() as int),
            )
            &&& r.position_total == spec_position_stats(tail, cycle_len as int, r.next_cycle_pos as int, tail.len() as int).len()
        }),
{
    let ghost tail = seq.deep_view().subrange(start as int, seq.len() as int);
    let tail_slice = slice_subrange(seq.as_slice(), start, seq.len());
    assert(tail_slice.deep_view() =~= tail);
    let n = tail_slice.len();
    let full = n / cycle_len;
    let next_pos = n % cycle_len + 1;
    let mut shapes: Vec<String> = Vec::new();
    let mut c: usize = 0;
    let mut at: usize = 0;
    while c < full
        invariant
            n == tail_slice.len(),
            tail_slice.deep_view() == tail,
            cycle_len >= 2,
            full == n / cycle_len,
            c <= full,
            at == c * cycle_len,
            shapes.len() == c,
            forall|x: int| 0 <= x < c ==> #[trigger] shapes@[x]@ == spec_shape(spec_cycle(tail, cycle_len as int, x)),
        decreases full - c,
    {
        proof {
            lemma_cycle_bound(c as int, cycle_len as int, n as int);
        }
        let cyc = slice_subrange(tail_slice, at, at + cycle_len);
        assert(cyc.deep_view() =~= spec_cycle(tail, cycle_len as int, c as int));
        let sh = shape_signature(cyc);
        shapes.push(sh);
        assert((c + 1) * cycle_len == c * cycle_len + cycle_len) by (nonlinear_arith);
        at = at + cycle_len;
        c = c + 1;
    }
    assert(shapes.deep_view() =~= spec_cycle_shapes(tail, cycle_len as int));
    let cycle_shapes = tally(&shapes);
    let mut stats: Vec<String> = Vec::new();
    let mut i: usize = 0;
    while i < n
        invariant
            n == tail_slice.len(),
            tail_slice.deep_view() == tail,
            cycle_len >= 2,
            i <= n,
            stats.deep_view() == spec_position_stats(tail, cycle_len as int, next_pos as int, i as int),
        decreases n - i,
    {
        if i % cycle_len + 1 == next_pos {
            stats.push(tail_slice[i].clone());
            assert(stats.deep_view() =~= spec_position_stats(tail, cycle_len as int, next_pos as int, i as int).push(
                tail[i as int],
            ));
        }
        i = i + 1;
    }
    let position_counts = tally(&stats);
    ManualCycleCounts {
        full_cycles: full,
        next_cycle_pos: next_pos,
        cycle_shapes,
        position_counts,
        position_total: stats.len(),
    }
}

/// How many of the first `k` windows of `m` stats in a cycle have shape `g`.
pub open spec fn spec_window_hits(cyc: Seq<Seq<char>>, g: Seq<char>, m: int, k: int) -> nat
    decreases k,
{
    if k <= 0 {
        0
    } else {
        spec_window_hits(cyc, g, m, k - 1) + if spec_shape(cyc.subrange(k - 1, k - 1 + m)) == g {
            1nat
        } else {
            0nat
        }
    }
}

/// The windows with shape `g` over the first `c` full cycles.
pub open spec fn spec_total_hits(tail: Seq<Seq<char>>, len: int, g: Seq<char>, m: int, c: int) -> nat
    decreases c,
{
    if c <= 0 {
        0
    } else {
        spec_total_hits(tail, len, g, m, c - 1) + spec_window_hits(spec_cycle(tail, len, c - 1), g, m, len - m + 1)
    }
}

/// The numbers (from 1) of the first `c` full cycles that hold a window of shape `g`.
pub open spec fn spec_hit_cycles(tail: Seq<Seq<char>>, len: int, g: Seq<char>, m: int, c: int) -> Seq<int>
    decreases c,
{
    if c <= 0 {
        Seq::empty()
    } else if spec_window_hits(spec_cycle(tail, len, c - 1), g, m, len - m + 1) > 0 {
        spec_hit_cycles(tail, len, g, m, c - 1).push(c)
    } else {
        spec_hit_cycles(tail, len, g, m, c - 1)
    }
}

/// How a guessed shape fares against the full cycles.
#[derive(Clone, Debug, PartialEq, Eq)]
pub struct GuessCheck {
    /// Windows of the guess's length whose shape is the guess.
    pub support: usize,
    /// Windows of the guess's length inside full cycles.
    pub opportunities: usize,
    /// The numbers (from 1) of the cycles with such a window; at most the first 12.
    pub matched_cycles: Vec<usize>,
}

/// Checks a guessed shape of `m` letters against every window of every full cycle of the
/// tail that starts at `start`; nothing is checked when there is no full cycle or the guess
/// is longer than a cycle.
pub fn check_guess(seq: &Vec<String>, start: usize, cycle_len: usize, guess: &str, m: usize) -> (r: GuessCheck)
    requires
        start < seq.len(),
        2 <= cycle_len <= 20,
        1 <= m == guess@.len(),
    ensures
        ({
            let tail = seq.deep_view().subrange(start as int, seq.len() as int);
            let full = (tail.len() as int) / (cycle_len as int);
            if full > 0 && m <= cycle_len {
                &&& r.opportunities == full * (cycle_len - m + 1)
                &&& r.support == spec_total_hits(tail, cycle_len as int, guess@, m as int, full)
                &&& r.matched_cycles@.map_values(|x: usize| x as int) == {
                    let h = spec_hit_cycles(tail, cycle_len as int, guess@, m as int, full);
                    if h.len() > 12 { h.take(12) } else { h }
                }
            } else {
                r.opportunities == 0 && r.support == 0 && r.matched_cycles@.len() == 0
            }
        }),
{
    let ghost tail = seq.deep_view().subrange(start as int, seq.len() as int);
    let tail_slice = slice_subrange(seq.as_slice(), start, seq.len());
    assert(tail_slice.deep_view() =~= tail);
    let n = tail_slice.len();
    let full = n / cycle_len;
    let mut support: usize = 0;
    let mut opportunities: usize = 0;
    let mut matched: Vec<usize> = Vec::new();
    if full == 0 || m > cycle_len {
        return GuessCheck { support, opportunities, matched_cycles: matched };
    }
    let windows = cycle_len - m + 1;
    let mut c: usize = 0;
    let mut at: usize = 0;
    while c < full
        invariant
            n == tail_slice.len(),
            tail_slice.deep_view() == tail,
            2 <= cycle_len <= 20,
            1 <= m <= cycle_len,
            windows == cycle_len - m + 1,
            full == n / cycle_len,
            full > 0,
            c <= full,
            at == c * cycle_len,
            opportunities == c * windows,
            support == spec_total_hits(tail, cycle_len as int, guess@, m as int, c as int),
            support <= opportunities,
            matched@.map_values(|x: usize| x as int) == spec_hit_cycles(tail, cycle_len as int, guess@, m as int, c as int),
            forall|x: int| 0 <= x < matched.len() ==> matched@[x] <= c,
        decreases full - c,
    {
        proof {
            lemma_cycle_bound(c as int, cycle_len as int, n as int);
        }
        let cyc = slice_subrange(tail_slice, at, at + cycle_len);
        let ghost cv = spec_cycle(tail, cycle_len as int, c as int);
        assert(cyc.deep_view() =~= cv);
        let mut hits: usize = 0;
        let mut local: usize = 0;
        while local < windows
            invariant
                cyc.deep_view() == cv,
                cv.len() == cycle_len,
                m <= cycle_len,
                windows == cycle_len - m + 1,
                local <= windows,
                hits == spec_window_hits(cv, guess@, m as int, local as int),
                hits <= local,
            decreases windows - local,
        {
            let sub = slice_subrange(cyc, local, local + m);
            assert(sub.deep_view() =~= cv.subrange(local as int, local + m));
            let sh = shape_signature(sub);
            if same_text(sh.as_str(), guess) {
                hits = hits + 1;
            }
            local = local + 1;
        }
        assert(opportunities + windows <= n) by (nonlinear_arith)
            requires
                opportunities == c * windows,
                windows <= cycle_len,
                c * cycle_len + cycle_len <= n,
                c >= 0,
        ;
        opportunities = opportunities + windows;
        support = support + hits;
        if hits > 0 {
            matched.push(c + 1);
            assert(matched@.map_values(|x: usize| x as int) =~= spec_hit_cycles(tail, cycle_len as int, guess@, m as int, c as int).push(
                c + 1,
            ));
        }
        assert((c + 1) * cycle_len == c * cycle_len + cycle_len) by (nonlinear_arith);
        assert((c + 1) * windows == c * windows + windows) by (nonlinear_arith);
        at = at + cycle_len;
        c = c + 1;
    }
    if matched.len() > 12 {
        matched.truncate(12);
    }
    assert(matched@.map_values(|x: usize| x as int) =~= {
        let h = spec_hit_cycles(tail, cycle_len as int, guess@, m as int, full as int);
        if h.len() > 12 { h.take(12) } else { h }
    });
    GuessCheck { support, opportunities, matched_cycles: matched }
}

/// How many of the first `k` positions stand at offset `r` in their cycle.
pub open spec fn spec_offset_count(k: int, len: int, r: int) -> int {
    k / len + if k % len > r { 1int } else { 0int }
}

proof fn lemma_position_count(tail: Seq<Seq<char>>, len: int, r: int, k: int)
    requires
        len > 0,
        0 <= r < len,
        0 <= k,
    ensures
        spec_position_stats(tail, len, r + 1, k).len() == spec_offset_count(k, len, r),
    decreases k,
{
    if k > 0 {
        let j = k - 1;
        lemma_position_count(tail, len, r, j);
        vstd::arithmetic::div_mod::lemma_fundamental_div_mod(j, len);
        vstd::arithmetic::div_mod::lemma_mod_pos_bound(j, len);
        let q = j / len;
        let rr = j % len;
        if rr + 1 < len {
            vstd::arithmetic::div_mod::lemma_fundamental_div_mod_converse(k, len, q, rr + 1);
        } else {
            assert(k == (q + 1) * len + 0) by (nonlinear_arith)
                requires
                    j == len * q + rr,
                    rr + 1 == len,
                    k == j + 1,
            ;
            vstd::arithmetic::div_mod::lemma_fundamental_div_mod_converse(k, len, q + 1, 0);
        }
    }
}

/// The stats at the next cycle position come one from each full cycle: there are exactly
/// as many of them as full cycles, and the full cycles with the position of the next stat
/// make up the tail.
pub proof fn law_next_position_one_per_cycle(tail: Seq<Seq<char>>, len: int)
    requires
        len > 0,
    ensures
        spec_position_stats(tail, len, (tail.len() as int) % len + 1, tail.len() as int).len() == (tail.len() as int) / len,
        ((tail.len() as int) / len) * len + (tail.len() as int) % len == tail.len(),
{
    let n = tail.len() as int;
    vstd::arithmetic::div_mod::lemma_mod_pos_bound(n, len);
    lemma_position_count(tail, len, n % len, n);
    vstd::arithmetic::div_mod::lemma_fundamental_div_mod(n, len);
    assert((n / len) * len == len * (n / len)) by (nonlinear_arith);
}

} // verus!
