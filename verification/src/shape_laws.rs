//! Properties of shape signatures.
use vstd::prelude::*;
use crate::shape::{
    lemma_seen_covers, lemma_seen_distinct, lemma_shape_len, spec_canonical_shape, spec_index_of,
    spec_infer_next, spec_is_letter, spec_letter, spec_letters, spec_seen, spec_shape, spec_upper,
};

verus! {

/// Whether `f` sends distinct elements of `p` to distinct values.
pub open spec fn injective_on<A, B>(f: spec_fn(A) -> B, p: Seq<A>) -> bool {
    forall|x: A, y: A| p.contains(x) && p.contains(y) && f(x) == f(y) ==> x == y
}

proof fn lemma_injective_on_prefix<A, B>(f: spec_fn(A) -> B, p: Seq<A>)
    requires
        p.len() > 0,
        injective_on(f, p),
    ensures
        injective_on(f, p.drop_last()),
{
    assert forall|x: A, y: A|
        p.drop_last().contains(x) && p.drop_last().contains(y) && f(x) == f(y) implies x == y by {
        let i = choose|i: int| 0 <= i < p.drop_last().len() && p.drop_last()[i] == x;
        let j = choose|j: int| 0 <= j < p.drop_last().len() && p.drop_last()[j] == y;
        assert(p[i] == x);
        assert(p[j] == y);
        assert(p.contains(x));
        assert(p.contains(y));
    }
}

/// Renaming the tokens injectively renames the list of distinct tokens.
pub proof fn lemma_seen_rename<A, B>(f: spec_fn(A) -> B, p: Seq<A>)
    requires
        injective_on(f, p),
    ensures
        spec_seen(p.map_values(f)) == spec_seen(p).map_values(f),
    decreases p.len(),
{
    if p.len() > 0 {
        let q = p.drop_last();
        let pm = p.map_values(f);
        assert(pm.drop_last() =~= q.map_values(f));
        lemma_injective_on_prefix(f, p);
        lemma_seen_rename(f, q);
        lemma_seen_covers(q);
        let sq = spec_seen(q);
        assert(pm.last() == f(p.last()));
        if sq.contains(p.last()) {
            let k = choose|k: int| 0 <= k < sq.len() && sq[k] == p.last();
            assert(sq.map_values(f)[k] == f(p.last()));
        } else {
            assert forall|k: int| 0 <= k < sq.len() implies sq.map_values(f)[k] != f(p.last()) by {
                assert(sq.contains(sq[k]));
                assert(q.contains(sq[k]));
                let i = choose|i: int| 0 <= i < q.len() && q[i] == sq[k];
                assert(p[i] == sq[k]);
                assert(p[p.len() - 1] == p.last());
                assert(p.contains(sq[k]));
                assert(p.contains(p.last()));
                if f(sq[k]) == f(p.last()) {
                    assert(sq[k] == p.last());
                }
            }
            assert(!sq.map_values(f).contains(f(p.last())));
            assert(sq.push(p.last()).map_values(f) =~= sq.map_values(f).push(f(p.last())));
        }
    }
}

/// The position of an element is kept by an injective renaming.
proof fn lemma_index_rename<A, B>(f: spec_fn(A) -> B, s: Seq<A>, t: A)
    requires
        s.no_duplicates(),
        s.contains(t),
        injective_on(f, s),
    ensures
        spec_index_of(s.map_values(f), f(t)) == spec_index_of(s, t),
{
    let k = choose|k: int| 0 <= k < s.len() && s[k] == t;
    assert(s.map_values(f)[k] == f(t));
    let j = spec_index_of(s.map_values(f), f(t));
    let i = spec_index_of(s, t);
    assert(s[j] == t) by {
        assert(s.contains(s[j]));
    }
}

/// Renaming the tokens of a sequence one-to-one leaves its shape unchanged.
pub proof fn law_shape_rename_invariant<A, B>(f: spec_fn(A) -> B, p: Seq<A>)
    requires
        injective_on(f, p),
    ensures
        spec_shape(p.map_values(f)) == spec_shape(p),
    decreases p.len(),
{
    if p.len() > 0 {
        let q = p.drop_last();
        let pm = p.map_values(f);
        assert(pm.drop_last() =~= q.map_values(f));
        lemma_injective_on_prefix(f, p);
        law_shape_rename_invariant(f, q);
        lemma_seen_rename(f, p);
        lemma_seen_distinct(p);
        lemma_seen_covers(p);
        assert(p.contains(p[p.len() - 1]));
        assert(spec_seen(p).contains(p.last()));
        assert(injective_on(f, spec_seen(p))) by {
            assert forall|x: A, y: A|
                spec_seen(p).contains(x) && spec_seen(p).contains(y) && f(x) == f(y) implies x
                == y by {
                assert(p.contains(x));
                assert(p.contains(y));
            }
        }
        lemma_index_rename(f, spec_seen(p), p.last());
    }
}

proof fn lemma_seen_step<A>(p: Seq<A>, k: int)
    requires
        0 <= k < p.len(),
    ensures
        spec_seen(p.take(k)).len() <= spec_seen(p.take(k + 1)).len(),
        spec_seen(p.take(k + 1)).take(spec_seen(p.take(k)).len() as int) == spec_seen(p.take(k)),
{
    assert(p.take(k + 1).drop_last() =~= p.take(k));
    let a = spec_seen(p.take(k));
    let b = spec_seen(p.take(k + 1));
    assert(b.take(a.len() as int) =~= a);
}

/// The distinct tokens of a prefix are a prefix of the distinct tokens.
proof fn lemma_seen_prefix<A>(p: Seq<A>, k: int)
    requires
        0 <= k <= p.len(),
    ensures
        spec_seen(p.take(k)).len() <= spec_seen(p).len(),
        spec_seen(p).take(spec_seen(p.take(k)).len() as int) == spec_seen(p.take(k)),
    decreases p.len() - k,
{
    if k == p.len() {
        assert(p.take(k) =~= p);
        assert(spec_seen(p).take(spec_seen(p).len() as int) =~= spec_seen(p));
    } else {
        lemma_seen_step(p, k);
        lemma_seen_prefix(p, k + 1);
        let a = spec_seen(p.take(k));
        let b = spec_seen(p.take(k + 1));
        let c = spec_seen(p);
        assert(c.take(a.len() as int) =~= b.take(a.len() as int));
    }
}

proof fn lemma_index_in_prefix<A>(a: Seq<A>, b: Seq<A>, t: A)
    requires
        a.len() <= b.len(),
        b.take(a.len() as int) == a,
        b.no_duplicates(),
        a.contains(t),
    ensures
        spec_index_of(a, t) == spec_index_of(b, t),
        0 <= spec_index_of(a, t) < a.len(),
{
    let k = choose|k: int| 0 <= k < a.len() && a[k] == t;
    let i = spec_index_of(a, t);
    assert(b.take(a.len() as int)[k] == b[k]);
    assert(b[k] == t);
    let j = spec_index_of(b, t);
    assert(b.take(a.len() as int)[i] == b[i]);
}

/// Each symbol of a shape is the letter of its token's rank among the distinct tokens.
pub proof fn lemma_shape_at<A>(p: Seq<A>, i: int)
    requires
        0 <= i < p.len(),
    ensures
        spec_shape(p)[i] == spec_letter(spec_index_of(spec_seen(p), p[i])),
        0 <= spec_index_of(spec_seen(p), p[i]) < spec_seen(p).len(),
    decreases p.len(),
{
    let q = p.drop_last();
    lemma_seen_distinct(p);
    lemma_seen_covers(p);
    lemma_shape_len(q);
    if i < p.len() - 1 {
        lemma_shape_at(q, i);
        assert(q =~= p.take(p.len() - 1));
        lemma_seen_prefix(p, p.len() - 1);
        lemma_seen_covers(q);
        assert(q[i] == p[i]);
        assert(spec_seen(q).contains(q[i]));
        lemma_index_in_prefix(spec_seen(q), spec_seen(p), p[i]);
    } else {
        assert(spec_seen(p).contains(p[i]));
        let k = choose|k: int| 0 <= k < spec_seen(p).len() && spec_seen(p)[k] == p[i];
    }
}

proof fn lemma_letter_injective(i: int, j: int)
    requires
        0 <= i < 26,
        0 <= j < 26,
        spec_letter(i) == spec_letter(j),
    ensures
        i == j,
{
    assert(spec_letter(i) as int == 65 + i);
    assert(spec_letter(j) as int == 65 + j);
}

/// Two positions of a sequence with at most 26 distinct tokens carry the same shape symbol
/// exactly when they carry the same token.
pub proof fn lemma_shape_same_symbol<A>(p: Seq<A>, i: int, j: int)
    requires
        0 <= i < p.len(),
        0 <= j < p.len(),
        spec_seen(p).len() <= 26,
    ensures
        (spec_shape(p)[i] == spec_shape(p)[j]) <==> (p[i] == p[j]),
{
    lemma_shape_at(p, i);
    lemma_shape_at(p, j);
    let s = spec_seen(p);
    let a = spec_index_of(s, p[i]);
    let b = spec_index_of(s, p[j]);
    lemma_seen_covers(p);
    lemma_shape_len(p);
    assert(s.contains(p[i]));
    assert(s.contains(p[j]));
    assert(s[a] == p[i]);
    assert(s[b] == p[j]);
    if spec_shape(p)[i] == spec_shape(p)[j] {
        lemma_letter_injective(a, b);
    }
}

/// A shape with at most 26 distinct tokens spells its own sequence's renaming.
proof fn lemma_shape_is_renaming<A>(p: Seq<A>)
    requires
        spec_seen(p).len() <= 26,
    ensures
        spec_shape(p) == p.map_values(|t: A| spec_letter(spec_index_of(spec_seen(p), t))),
        injective_on(|t: A| spec_letter(spec_index_of(spec_seen(p), t)), p),
{
    let g = |t: A| spec_letter(spec_index_of(spec_seen(p), t));
    lemma_shape_len(p);
    assert forall|i: int| 0 <= i < p.len() implies spec_shape(p)[i] == p.map_values(g)[i] by {
        lemma_shape_at(p, i);
    }
    assert(spec_shape(p) =~= p.map_values(g));
    lemma_seen_covers(p);
    lemma_seen_distinct(p);
    assert forall|x: A, y: A| p.contains(x) && p.contains(y) && g(x) == g(y) implies x == y by {
        let s = spec_seen(p);
        let ix = choose|i: int| 0 <= i < p.len() && p[i] == x;
        let iy = choose|i: int| 0 <= i < p.len() && p[i] == y;
        assert(s.contains(p[ix]));
        assert(s.contains(p[iy]));
        let a = spec_index_of(s, x);
        let b = spec_index_of(s, y);
        lemma_letter_injective(a, b);
    }
}

proof fn lemma_letters_of_uppercase(s: Seq<char>)
    requires
        forall|i: int| 0 <= i < s.len() ==> 'A' <= #[trigger] s[i] && s[i] <= 'Z',
    ensures
        spec_letters(s) == s,
    decreases s.len(),
{
    if s.len() > 0 {
        lemma_letters_of_uppercase(s.drop_last());
        assert(s[s.len() - 1] == s.last());
        assert(spec_is_letter(s.last()));
        assert(spec_upper(s.last()) == s.last());
        assert(s.drop_last().push(s.last()) =~= s);
    }
}

/// Normalising a shape signature of 2 to 16 tokens gives it back unchanged.
pub proof fn law_canonical_shape_fixed<A>(p: Seq<A>)
    requires
        2 <= p.len() <= 16,
    ensures
        spec_canonical_shape(spec_shape(p)) == Some(spec_shape(p)),
{
    let s = spec_shape(p);
    lemma_shape_len(p);
    lemma_seen_covers(p);
    assert forall|i: int| 0 <= i < s.len() implies 'A' <= #[trigger] s[i] && s[i] <= 'Z' by {
        lemma_shape_at(p, i);
    }
    lemma_letters_of_uppercase(s);
    lemma_shape_is_renaming(p);
    let g = |t: A| spec_letter(spec_index_of(spec_seen(p), t));
    law_shape_rename_invariant(g, p);
}

/// A window whose last token occurs earlier in it is predicted, from its own shape and
/// its other tokens, to end with that token.
pub proof fn law_shape_predicts_last(p: Seq<Seq<char>>)
    requires
        p.len() >= 2,
        spec_seen(p).len() <= 26,
        p.drop_last().contains(p.last()),
    ensures
        spec_infer_next(spec_shape(p), p.drop_last()) == Some(p.last()),
{
    let sh = spec_shape(p);
    let suf = p.drop_last();
    lemma_shape_len(p);
    assert forall|i: int, j: int|
        0 <= i < suf.len() && 0 <= j < suf.len() implies ((sh[i] == sh[j]) <==> (suf[i]
        == suf[j])) by {
        lemma_shape_same_symbol(p, i, j);
    }
    let w = choose|k: int| 0 <= k < suf.len() && suf[k] == p.last();
    lemma_shape_same_symbol(p, w, p.len() - 1);
    assert(sh[w] == sh.last());
    let k = choose|k: int| 0 <= k < suf.len() && sh[k] == sh.last();
    lemma_shape_same_symbol(p, k, p.len() - 1);
}

} // verus!
