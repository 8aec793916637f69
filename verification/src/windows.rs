//! The windows of a day's sequence: every run of a given length, how often each distinct
//! run occurs (its support), and the shapes of all runs; and the settings that bound the
//! pattern search.
use vstd::prelude::*;
use vstd::string::*;
use crate::domain::DailyPatternDecisionFilter;
use crate::shape::{canonicalize_shape, shape_signature, spec_canonical_shape, spec_seen, spec_shape};
use crate::tally::spec_count;
use crate::text::same_text;
use vstd::slice::slice_subrange;

verus! {

/// The runs of `len` consecutive tokens, by start position.
pub open spec fn spec_windows(seq: Seq<Seq<char>>, len: int) -> Seq<Seq<Seq<char>>> {
    if len > seq.len() {
        Seq::empty()
    } else {
        Seq::new((seq.len() - len + 1) as nat, |i: int| seq.subrange(i, i + len))
    }
}

/// Whether the window at `i` is the first occurrence of its run.
pub open spec fn spec_first_occurrence<A>(ws: Seq<A>, i: int) -> bool {
    forall|j: int| 0 <= j < i ==> ws[j] != ws[i]
}

/// The start positions among the first `k` that begin a run not seen before, in order.
pub open spec fn spec_first_starts<A>(ws: Seq<A>, k: int) -> Seq<int>
    decreases k,
{
    if k <= 0 {
        Seq::empty()
    } else if spec_first_occurrence(ws, k - 1) {
        spec_first_starts(ws, k - 1).push(k - 1)
    } else {
        spec_first_starts(ws, k - 1)
    }
}

fn same_run(seq: &Vec<String>, a: usize, b: usize, len: usize) -> (r: bool)
    requires
        a + len <= seq.len(),
        b + len <= seq.len(),
    ensures
        r == (seq.deep_view().subrange(a as int, a + len) == seq.deep_view().subrange(b as int, b + len)),
{
    let ghost x = seq.deep_view().subrange(a as int, a + len);
    let ghost y = seq.deep_view().subrange(b as int, b + len);
    let mut i: usize = 0;
    while i < len
        invariant
            i <= len,
            a + len <= seq.len(),
            b + len <= seq.len(),
            x == seq.deep_view().subrange(a as int, a + len),
            y == seq.deep_view().subrange(b as int, b + len),
            forall|j: int| 0 <= j < i ==> x[j] == y[j],
        decreases len - i,
    {
        if seq[a + i] != seq[b + i] {
            assert(x[i as int] != y[i as int]);
            return false;
        }
        i = i + 1;
    }
    assert(x =~= y);
    true
}

/// Each distinct run of `len` tokens, given by the start of its first occurrence, with the
/// number of positions where it occurs; in order of first occurrence.
pub fn window_supports(seq: &Vec<String>, len: usize) -> (r: Vec<(usize, usize)>)
    requires
        len >= 1,
    ensures
        ({
            let ws = spec_windows(seq.deep_view(), len as int);
            &&& r@.map_values(|p: (usize, usize)| p.0 as int) == spec_first_starts(ws, ws.len() as int)
            &&& forall|x: int| 0 <= x < r.len() ==> #[trigger] r@[x].1 == spec_count(ws, ws[r@[x].0 as int])
        }),
{
    let ghost ws = spec_windows(seq.deep_view(), len as int);
    let mut out: Vec<(usize, usize)> = Vec::new();
    if len > seq.len() {
        return out;
    }
    let w = seq.len() - len + 1;
    let mut i: usize = 0;
    while i < w
        invariant
            1 <= len <= seq.len(),
            w == seq.len() - len + 1,
            ws == spec_windows(seq.deep_view(), len as int),
            ws.len() == w,
            i <= w,
            out@.map_values(|p: (usize, usize)| p.0 as int) == spec_first_starts(ws, i as int),
            forall|x: int| 0 <= x < out.len() ==> #[trigger] out@[x].1 == spec_count(ws, ws[out@[x].0 as int]),
            forall|x: int| 0 <= x < out.len() ==> out@[x].0 < i,
        decreases w - i,
    {
        let mut seen_before = false;
        let mut j: usize = 0;
        while j < i
            invariant
                1 <= len <= seq.len(),
                w == seq.len() - len + 1,
                ws == spec_windows(seq.deep_view(), len as int),
                j <= i < w,
                !seen_before ==> forall|y: int| 0 <= y < j ==> ws[y] != ws[i as int],
                seen_before ==> !spec_first_occurrence(ws, i as int),
            decreases i - j,
        {
            if !seen_before && same_run(seq, j, i, len) {
                assert(ws[j as int] == ws[i as int]);
                seen_before = true;
            }
            j = j + 1;
        }
        if !seen_before {
            let mut count: usize = 0;
            let mut k: usize = 0;
            while k < w
                invariant
                    1 <= len <= seq.len(),
                    w == seq.len() - len + 1,
                    ws == spec_windows(seq.deep_view(), len as int),
                    i < w,
                    k <= w,
                    count == spec_count(ws.take(k as int), ws[i as int]),
                    count <= k,
                decreases w - k,
            {
                assert(ws.take(k as int + 1).drop_last() =~= ws.take(k as int));
                if same_run(seq, k, i, len) {
                    count = count + 1;
                }
                k = k + 1;
            }
            assert(ws.take(w as int) =~= ws);
            let ghost before = out@.map_values(|p: (usize, usize)| p.0 as int);
            out.push((i, count));
            assert(out@.map_values(|p: (usize, usize)| p.0 as int) =~= before.push(i as int));
        }
        i = i + 1;
    }
    out
}

/// The shapes of all runs of `len` tokens, by start position.
pub fn window_shapes(seq: &Vec<String>, len: usize) -> (r: Vec<String>)
    requires
        len >= 1,
    ensures
        r.deep_view() == spec_windows(seq.deep_view(), len as int).map_values(|p: Seq<Seq<char>>| spec_shape(p)),
{
    let mut out: Vec<String> = Vec::new();
    if len > seq.len() {
        assert(out.deep_view() =~= spec_windows(seq.deep_view(), len as int).map_values(|p: Seq<Seq<char>>| spec_shape(p)));
        return out;
    }
    let w = seq.len() - len + 1;
    let mut i: usize = 0;
    while i < w
        invariant
            1 <= len <= seq.len(),
            w == seq.len() - len + 1,
            i <= w,
            out.len() == i,
            forall|x: int| 0 <= x < i ==> #[trigger] out@[x]@ == spec_shape(seq.deep_view().subrange(x, x + len)),
        decreases w - i,
    {
        let run = slice_subrange(seq.as_slice(), i, i + len);
        assert(run.deep_view() =~= seq.deep_view().subrange(i as int, i + len));
        out.push(shape_signature(run));
        i = i + 1;
    }
    assert(out.deep_view() =~= spec_windows(seq.deep_view(), len as int).map_values(|p: Seq<Seq<char>>| spec_shape(p)));
    out
}

/// The bounds of the pattern search, as asked for and kept within their ranges.
#[derive(Clone, Debug, PartialEq, Eq)]
pub struct PatternParams {
    pub min_len: usize,
    pub max_len: usize,
    pub min_support: i64,
    pub max_order: usize,
    pub top_k: usize,
    pub manual_start_index: i64,
    pub manual_cycle_len: Option<usize>,
    pub manual_guess_shapes: Vec<String>,
}

/// `v` (or `d` when absent) kept within `lo..=hi`.
pub open spec fn spec_clamp_or(v: Option<i64>, d: int, lo: int, hi: int) -> int {
    let x = match v {
        Some(x) => x as int,
        None => d,
    };
    if x < lo { lo } else if x > hi { hi } else { x }
}

/// The canonical forms of the guesses that have one, in order.
pub open spec fn spec_canonical_guesses(raw: Seq<Seq<char>>) -> Seq<Seq<char>>
    decreases raw.len(),
{
    if raw.len() == 0 {
        Seq::empty()
    } else {
        let rest = spec_canonical_guesses(raw.drop_last());
        match spec_canonical_shape(raw.last()) {
            Some(s) => rest.push(s),
            None => rest,
        }
    }
}

fn clamp_or(v: Option<i64>, d: i64, lo: i64, hi: i64) -> (r: i64)
    requires
        lo <= hi,
    ensures
        r == spec_clamp_or(v, d as int, lo as int, hi as int),
{
    let x: i64 = match v {
        Some(x) => x,
        None => d,
    };
    if x < lo {
        lo
    } else if x > hi {
        hi
    } else {
        x
    }
}

/// Resolves the pattern search bounds of a request: lengths 2..=12 (4 by default) up to
/// min..=16 (7), support 1..=50 (2), order 1..=8 (5), top 1..=30 (10), a start of at least
/// 0, a cycle length within 2..=20 when given, and the distinct canonical guess shapes in
/// the order given.
pub fn pattern_params(filter: &DailyPatternDecisionFilter) -> (r: PatternParams)
    ensures
        r.min_len == spec_clamp_or(filter.min_len, 4, 2, 12),
        r.max_len == spec_clamp_or(filter.max_len, 7, r.min_len as int, 16),
        r.min_support == spec_clamp_or(filter.min_support, 2, 1, 50),
        r.max_order == spec_clamp_or(filter.max_order, 5, 1, 8),
        r.top_k == spec_clamp_or(filter.top_k, 10, 1, 30),
        r.manual_start_index == (match filter.manual_start_index {
            Some(v) => if v < 0 { 0 } else { v },
            None => 0,
        }),
        r.manual_cycle_len == (match filter.manual_cycle_len {
            Some(v) => Some(spec_clamp_or(Some(v), 0, 2, 20) as usize),
            None => None::<usize>,
        }),
        r.manual_guess_shapes.deep_view() == (match filter.manual_guess_shapes {
            Some(raw) => spec_seen(spec_canonical_guesses(raw.deep_view())),
            None => Seq::empty(),
        }),
{
    let min_len = clamp_or(filter.min_len, 4, 2, 12);
    let max_len = clamp_or(filter.max_len, 7, min_len, 16);
    let min_support = clamp_or(filter.min_support, 2, 1, 50);
    let max_order = clamp_or(filter.max_order, 5, 1, 8);
    let top_k = clamp_or(filter.top_k, 10, 1, 30);
    let manual_start_index: i64 = match filter.manual_start_index {
        Some(v) => if v < 0 { 0 } else { v },
        None => 0,
    };
    let manual_cycle_len: Option<usize> = match filter.manual_cycle_len {
        Some(v) => Some(clamp_or(Some(v), 0, 2, 20) as usize),
        None => None,
    };
    let manual_guess_shapes: Vec<String> = match &filter.manual_guess_shapes {
        Some(raw) => distinct_canonical_shapes(raw),
        None => Vec::new(),
    };
    PatternParams {
        min_len: min_len as usize,
        max_len: max_len as usize,
        min_support,
        max_order: max_order as usize,
        top_k: top_k as usize,
        manual_start_index,
        manual_cycle_len,
        manual_guess_shapes,
    }
}

/// The canonical forms of the guesses, each kept once, in the order first given.
pub fn distinct_canonical_shapes(raw: &Vec<String>) -> (r: Vec<String>)
    ensures
        r.deep_view() == spec_seen(spec_canonical_guesses(raw.deep_view())),
{
    let mut out: Vec<String> = Vec::new();
    let mut i: usize = 0;
    while i < raw.len()
        invariant
            i <= raw.len(),
            out.deep_view() == spec_seen(spec_canonical_guesses(raw.deep_view().take(i as int))),
        decreases raw.len() - i,
    {
        let ghost pre = raw.deep_view().take(i as int);
        let ghost q = raw.deep_view().take(i as int + 1);
        assert(q.drop_last() =~= pre);
        assert(q.last() == raw@[i as int]@);
        match canonicalize_shape(raw[i].as_str()) {
            Some(s) => {
                let ghost cg = spec_canonical_guesses(pre);
                assert(spec_canonical_guesses(q) == cg.push(s@));
                assert(cg.push(s@).drop_last() =~= cg);
                let mut found = false;
                let mut k: usize = 0;
                while k < out.len()
                    invariant
                        k <= out.len(),
                        !found ==> forall|y: int| 0 <= y < k ==> out@[y]@ != s@,
                        found ==> out.deep_view().contains(s@),
                    decreases out.len() - k,
                {
                    if !found && same_text(out[k].as_str(), s.as_str()) {
                        assert(out.deep_view()[k as int] == s@);
                        found = true;
                    }
                    k = k + 1;
                }
                if found {
                    assert(spec_seen(cg).contains(s@));
                } else {
                    assert(!out.deep_view().contains(s@)) by {
                        if out.deep_view().contains(s@) {
                            let y = choose|y: int| 0 <= y < out.deep_view().len() && out.deep_view()[y] == s@;
                            assert(out@[y]@ == s@);
                        }
                    }
                    out.push(s);
                    assert(out.deep_view() =~= spec_seen(cg).push(s@));
                }
            },
            None => {
                assert(spec_canonical_guesses(q) == spec_canonical_guesses(pre));
            },
        }
        i = i + 1;
    }
    assert(raw.deep_view().take(raw.len() as int) =~= raw.deep_view());
    out
}

/// The model mode in use: one of the known modes, else `adaptive_v2`.
pub fn resolve_deployment_mode(mode: &str) -> (r: String)
    ensures
        r@ == (if mode@ == "baseline_v1"@ || mode@ == "adaptive_v2"@ || mode@ == "adaptive_v3_shadow"@
            || mode@ == "adaptive_v3"@ || mode@ == "v2_shadow"@ || mode@ == "v2_canary"@ {
            mode@
        } else {
            "adaptive_v2"@
        }),
{
    if same_text(mode, "baseline_v1") || same_text(mode, "adaptive_v2") || same_text(mode, "adaptive_v3_shadow")
        || same_text(mode, "adaptive_v3") || same_text(mode, "v2_shadow") || same_text(mode, "v2_canary") {
        mode.to_owned()
    } else {
        "adaptive_v2".to_owned()
    }
}

/// The tokens among positions `order..k` that follow an occurrence of the last `order`
/// tokens of the sequence, in order.
pub open spec fn spec_context_nexts(seq: Seq<Seq<char>>, order: int, k: int) -> Seq<Seq<char>>
    decreases k - order,
{
    if k <= order {
        Seq::empty()
    } else if seq.subrange(k - 1 - order, k - 1) == seq.subrange(seq.len() - order, seq.len() as int) {
        spec_context_nexts(seq, order, k - 1).push(seq[k - 1])
    } else {
        spec_context_nexts(seq, order, k - 1)
    }
}

/// What followed each earlier occurrence of the sequence's last `order` tokens: the tally
/// of those tokens and how many there were.
pub fn markov_context_counts(seq: &Vec<String>, order: usize) -> (r: (Vec<(String, usize)>, usize))
    requires
        1 <= order <= seq.len(),
    ensures
        crate::tally::spec_is_tally(
            crate::tally::spec_tally_view(r.0@),
            spec_context_nexts(seq.deep_view(), order as int, seq.len() as int),
        ),
        r.1 == spec_context_nexts(seq.deep_view(), order as int, seq.len() as int).len(),
{
    let n = seq.len();
    let ctx = n - order;
    let mut nexts: Vec<String> = Vec::new();
    let mut i: usize = order;
    while i < n
        invariant
            1 <= order <= n,
            n == seq.len(),
            ctx == n - order,
            order <= i <= n,
            nexts.deep_view() == spec_context_nexts(seq.deep_view(), order as int, i as int),
        decreases n - i,
    {
        if same_run(seq, i - order, ctx, order) {
            nexts.push(seq[i].clone());
            assert(nexts.deep_view() =~= spec_context_nexts(seq.deep_view(), order as int, i as int).push(
                seq.deep_view()[i as int],
            ));
        }
        i = i + 1;
    }
    let t = crate::tally::tally(&nexts);
    (t, nexts.len())
}

/// The highest Markov order used: the asked one, but below the sequence length.
pub fn effective_max_order(max_order: usize, n: usize) -> (r: usize)
    ensures
        r == (if n >= 2 { if max_order < n - 1 { max_order as int } else { n - 1 } } else { 1 }),
{
    if n >= 2 {
        if max_order < n - 1 {
            max_order
        } else {
            n - 1
        }
    } else {
        1
    }
}

/// There are `n - len + 1` runs of `len` tokens in `n` tokens, and the counts of their
/// shapes add up to that number.
pub proof fn law_shape_counts_cover_windows(seq: Seq<Seq<char>>, len: int, r: Seq<(Seq<char>, nat)>)
    requires
        1 <= len <= seq.len(),
        crate::tally::spec_is_tally(r, spec_windows(seq, len).map_values(|p: Seq<Seq<char>>| spec_shape(p))),
    ensures
        crate::tally::spec_tally_total(r) == seq.len() - len + 1,
{
    crate::tally::law_tally_total(r, spec_windows(seq, len).map_values(|p: Seq<Seq<char>>| spec_shape(p)));
}

} // verus!
