//! Tallies of how often each distinct value occurs, in order of first appearance.
use vstd::prelude::*;
use crate::shape::{find_key, lemma_seen_covers, lemma_seen_distinct, spec_seen};

verus! {

/// The number of occurrences of `x` in `s`.
pub open spec fn spec_count<A>(s: Seq<A>, x: A) -> nat
    decreases s.len(),
{
    if s.len() == 0 {
        0
    } else {
        spec_count(s.drop_last(), x) + if s.last() == x {
            1nat
        } else {
            0nat
        }
    }
}

pub proof fn lemma_count_bound<A>(s: Seq<A>, x: A)
    ensures
        spec_count(s, x) <= s.len(),
    decreases s.len(),
{
    if s.len() > 0 {
        lemma_count_bound(s.drop_last(), x);
    }
}

/// `r` lists each distinct element of `s` once, in order of first appearance, with the
/// number of times it occurs in `s`.
pub open spec fn spec_is_tally<A>(r: Seq<(A, nat)>, s: Seq<A>) -> bool {
    &&& r.map_values(|p: (A, nat)| p.0) == spec_seen(s)
    &&& forall|k: int| 0 <= k < r.len() ==> #[trigger] r[k].1 == spec_count(s, r[k].0)
}

/// The view of a tally of strings.
pub open spec fn spec_tally_view(v: Seq<(String, usize)>) -> Seq<(Seq<char>, nat)> {
    v.map_values(|p: (String, usize)| (p.0@, p.1 as nat))
}

/// How often each distinct string of `items` occurs, in order of first appearance.
pub fn tally(items: &Vec<String>) -> (r: Vec<(String, usize)>)
    ensures
        spec_is_tally(spec_tally_view(r@), items.deep_view()),
{
    let ghost s = items.deep_view();
    let mut keys: Vec<String> = Vec::new();
    let mut out: Vec<(String, usize)> = Vec::new();
    let mut i: usize = 0;
    while i < items.len()
        invariant
            s == items.deep_view(),
            i <= items.len(),
            keys.len() == out.len(),
            keys.deep_view() == spec_seen(s.take(i as int)),
            forall|k: int| 0 <= k < out.len() ==> #[trigger] out@[k].0@ == keys.deep_view()[k],
            forall|k: int| 0 <= k < out.len() ==> #[trigger] out@[k].1 as nat == spec_count(
                s.take(i as int),
                keys.deep_view()[k],
            ),
            forall|k: int| 0 <= k < out.len() ==> out@[k].1 <= i,
        decreases items.len() - i,
    {
        let ghost q = s.take(i as int + 1);
        assert(q.drop_last() =~= s.take(i as int));
        assert(q.last() == s[i as int]);
        proof {
            lemma_seen_distinct(q.drop_last());
        }
        match find_key(&keys, &items[i]) {
            Some(k) => {
                let (name, c) = out.remove(k);
                out.insert(k, (name, c + 1));
                assert(spec_seen(q.drop_last()).contains(q.last()));
                assert forall|m: int| 0 <= m < out.len() implies #[trigger] out@[m].1 as nat
                    == spec_count(q, keys.deep_view()[m]) by {
                    if m != k {
                        assert(spec_seen(q.drop_last())[m] != spec_seen(q.drop_last())[k as int]);
                    }
                }
            },
            None => {
                keys.push(items[i].clone());
                out.push((items[i].clone(), 1));
                assert(keys.deep_view() =~= spec_seen(q.drop_last()).push(q.last()));
                proof {
                    lemma_seen_covers(q.drop_last());
                }
                assert forall|m: int| 0 <= m < out.len() implies #[trigger] out@[m].1 as nat
                    == spec_count(q, keys.deep_view()[m]) by {
                    if m < out.len() - 1 {
                        assert(keys.deep_view()[m] != q.last()) by {
                            assert(spec_seen(q.drop_last()).contains(keys.deep_view()[m]));
                        }
                    } else {
                        assert(spec_count(q.drop_last(), q.last()) == 0) by {
                            lemma_count_absent(q.drop_last(), q.last());
                        }
                    }
                }
            },
        }
        i = i + 1;
    }
    assert(s.take(items.len() as int) =~= s);
    let ghost rv = spec_tally_view(out@);
    assert(rv.map_values(|p: (Seq<char>, nat)| p.0) =~= keys.deep_view());
    out
}

/// The view of a tally of string pairs.
pub open spec fn spec_pair_tally_view(v: Seq<((String, String), usize)>) -> Seq<((Seq<char>, Seq<char>), nat)> {
    v.map_values(|p: ((String, String), usize)| ((p.0.0@, p.0.1@), p.1 as nat))
}

/// The position of `t` in `keys`, if it occurs there.
pub fn find_pair(keys: &Vec<(String, String)>, t: &(String, String)) -> (r: Option<usize>)
    ensures
        r matches Some(k) ==> k < keys.len() && keys.deep_view()[k as int] == t.deep_view(),
        r is None ==> !keys.deep_view().contains(t.deep_view()),
{
    let mut k: usize = 0;
    while k < keys.len()
        invariant
            k <= keys.len(),
            forall|j: int| 0 <= j < k ==> keys.deep_view()[j] != t.deep_view(),
        decreases keys.len() - k,
    {
        if keys[k].0 == t.0 && keys[k].1 == t.1 {
            return Some(k);
        }
        k = k + 1;
    }
    None
}

/// How often each distinct pair of strings occurs in `items`, in order of first appearance.
pub fn tally_pairs(items: &Vec<(String, String)>) -> (r: Vec<((String, String), usize)>)
    ensures
        spec_is_tally(spec_pair_tally_view(r@), items.deep_view()),
{
    let ghost s = items.deep_view();
    let mut keys: Vec<(String, String)> = Vec::new();
    let mut out: Vec<((String, String), usize)> = Vec::new();
    let mut i: usize = 0;
    while i < items.len()
        invariant
            s == items.deep_view(),
            i <= items.len(),
            keys.len() == out.len(),
            keys.deep_view() == spec_seen(s.take(i as int)),
            forall|k: int| 0 <= k < out.len() ==> #[trigger] out@[k].0.deep_view() == keys.deep_view()[k],
            forall|k: int| 0 <= k < out.len() ==> #[trigger] out@[k].1 as nat == spec_count(
                s.take(i as int),
                keys.deep_view()[k],
            ),
            forall|k: int| 0 <= k < out.len() ==> out@[k].1 <= i,
        decreases items.len() - i,
    {
        let ghost q = s.take(i as int + 1);
        assert(q.drop_last() =~= s.take(i as int));
        assert(q.last() == s[i as int]);
        proof {
            lemma_seen_distinct(q.drop_last());
        }
        match find_pair(&keys, &items[i]) {
            Some(k) => {
                let (name, c) = out.remove(k);
                out.insert(k, (name, c + 1));
                assert(spec_seen(q.drop_last()).contains(q.last()));
                assert forall|m: int| 0 <= m < out.len() implies #[trigger] out@[m].1 as nat
                    == spec_count(q, keys.deep_view()[m]) by {
                    if m != k {
                        assert(spec_seen(q.drop_last())[m] != spec_seen(q.drop_last())[k as int]);
                    }
                }
            },
            None => {
                let pair = (items[i].0.clone(), items[i].1.clone());
                let pair2 = (items[i].0.clone(), items[i].1.clone());
                keys.push(pair);
                out.push((pair2, 1));
                assert(keys.deep_view() =~= spec_seen(q.drop_last()).push(q.last()));
                proof {
                    lemma_seen_covers(q.drop_last());
                }
                assert forall|m: int| 0 <= m < out.len() implies #[trigger] out@[m].1 as nat
                    == spec_count(q, keys.deep_view()[m]) by {
                    if m < out.len() - 1 {
                        assert(keys.deep_view()[m] != q.last()) by {
                            assert(spec_seen(q.drop_last()).contains(keys.deep_view()[m]));
                        }
                    } else {
                        assert(spec_count(q.drop_last(), q.last()) == 0) by {
                            lemma_count_absent(q.drop_last(), q.last());
                        }
                    }
                }
            },
        }
        i = i + 1;
    }
    assert(s.take(items.len() as int) =~= s);
    let ghost rv = spec_pair_tally_view(out@);
    assert forall|k: int| 0 <= k < out.len() implies #[trigger] rv[k].0 == keys.deep_view()[k] by {
        assert(out@[k].0.deep_view() == (out@[k].0.0@, out@[k].0.1@));
    }
    assert(rv.map_values(|p: ((Seq<char>, Seq<char>), nat)| p.0) =~= keys.deep_view());
    out
}

pub proof fn lemma_count_absent<A>(s: Seq<A>, x: A)
    requires
        !spec_seen(s).contains(x),
    ensures
        spec_count(s, x) == 0,
    decreases s.len(),
{
    if s.len() > 0 {
        lemma_seen_covers(s);
        assert(s.contains(s[s.len() - 1]));
        assert(spec_seen(s).contains(s[s.len() - 1]));
        lemma_seen_covers(s.drop_last());
        if spec_seen(s.drop_last()).contains(x) {
            assert(spec_seen(s).contains(x)) by {
                let k = choose|k: int| 0 <= k < spec_seen(s.drop_last()).len() && spec_seen(s.drop_last())[k] == x;
                assert(spec_seen(s)[k] == x);
            }
        }
        lemma_count_absent(s.drop_last(), x);
    }
}

/// The occurrences in `s` of the keys, added up.
pub open spec fn spec_sum_counts<A>(keys: Seq<A>, s: Seq<A>) -> nat
    decreases keys.len(),
{
    if keys.len() == 0 {
        0
    } else {
        spec_sum_counts(keys.drop_last(), s) + spec_count(s, keys.last())
    }
}

/// The counts of a tally, added up.
pub open spec fn spec_tally_total<A>(r: Seq<(A, nat)>) -> nat
    decreases r.len(),
{
    if r.len() == 0 {
        0
    } else {
        spec_tally_total(r.drop_last()) + r.last().1
    }
}

proof fn lemma_sum_counts_push<A>(keys: Seq<A>, s: Seq<A>, x: A)
    ensures
        spec_sum_counts(keys, s.push(x)) == spec_sum_counts(keys, s) + spec_count(keys, x),
    decreases keys.len(),
{
    if keys.len() > 0 {
        lemma_sum_counts_push(keys.drop_last(), s, x);
        assert(s.push(x).drop_last() =~= s);
    }
}

proof fn lemma_count_distinct<A>(keys: Seq<A>, x: A)
    requires
        keys.no_duplicates(),
    ensures
        spec_count(keys, x) == (if keys.contains(x) { 1nat } else { 0nat }),
    decreases keys.len(),
{
    if keys.len() > 0 {
        let q = keys.drop_last();
        assert(q.no_duplicates());
        lemma_count_distinct(q, x);
        if keys.last() == x {
            assert(!q.contains(x)) by {
                if q.contains(x) {
                    let k = choose|k: int| 0 <= k < q.len() && q[k] == x;
                    assert(keys[k] == keys[keys.len() - 1]);
                }
            }
        } else {
            assert(q.contains(x) == keys.contains(x)) by {
                if keys.contains(x) {
                    let k = choose|k: int| 0 <= k < keys.len() && keys[k] == x;
                    assert(k < keys.len() - 1);
                    assert(q[k] == x);
                }
                if q.contains(x) {
                    let k = choose|k: int| 0 <= k < q.len() && q[k] == x;
                    assert(keys[k] == x);
                }
            }
        }
    } else {
        assert(!keys.contains(x));
    }
}

proof fn lemma_sum_counts_seen<A>(s: Seq<A>)
    ensures
        spec_sum_counts(spec_seen(s), s) == s.len(),
    decreases s.len(),
{
    if s.len() > 0 {
        let q = s.drop_last();
        let x = s.last();
        lemma_sum_counts_seen(q);
        assert(q.push(x) =~= s);
        lemma_sum_counts_push(spec_seen(q), q, x);
        lemma_seen_distinct(q);
        lemma_count_distinct(spec_seen(q), x);
        if spec_seen(q).contains(x) {
            assert(spec_seen(s) == spec_seen(q));
        } else {
            assert(spec_seen(s) == spec_seen(q).push(x));
            assert(spec_seen(q).push(x).drop_last() =~= spec_seen(q));
            lemma_count_absent(q, x);
            assert(spec_count(s, x) == spec_count(q, x) + 1);
        }
    }
}

proof fn lemma_tally_total_is_sum<A>(r: Seq<(A, nat)>, s: Seq<A>)
    requires
        forall|k: int| 0 <= k < r.len() ==> #[trigger] r[k].1 == spec_count(s, r[k].0),
    ensures
        spec_tally_total(r) == spec_sum_counts(r.map_values(|p: (A, nat)| p.0), s),
    decreases r.len(),
{
    if r.len() > 0 {
        let q = r.drop_last();
        assert forall|k: int| 0 <= k < q.len() implies #[trigger] q[k].1 == spec_count(s, q[k].0) by {
            assert(q[k] == r[k]);
        }
        lemma_tally_total_is_sum(q, s);
        assert(r.map_values(|p: (A, nat)| p.0).drop_last() =~= q.map_values(|p: (A, nat)| p.0));
        assert(r[r.len() - 1].1 == spec_count(s, r[r.len() - 1].0));
    }
}

/// The counts of a tally add up to the number of items: every item is counted once,
/// under its own key.
pub proof fn law_tally_total<A>(r: Seq<(A, nat)>, s: Seq<A>)
    requires
        spec_is_tally(r, s),
    ensures
        spec_tally_total(r) == s.len(),
{
    lemma_tally_total_is_sum(r, s);
    lemma_sum_counts_seen(s);
}

} // verus!
