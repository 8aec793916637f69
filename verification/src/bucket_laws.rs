//! What splitting undoes, and what the readable form of a stored bucket key shows.
use vstd::prelude::*;
use crate::buckets::{spec_format_scoped, spec_has_prefix, spec_key, spec_scoped_key, BucketScope, PredictionBucket};
use crate::text::spec_split;

verus! {

/// A piece without the separator splits into itself.
pub proof fn lemma_split_plain(s: Seq<char>, sep: char)
    requires
        !s.contains(sep),
    ensures
        spec_split(s, sep) == seq![s],
    decreases s.len(),
{
    if s.len() > 0 {
        assert(!s.drop_last().contains(sep)) by {
            if s.drop_last().contains(sep) {
                let i = choose|i: int| 0 <= i < s.drop_last().len() && s.drop_last()[i] == sep;
                assert(s[i] == sep);
            }
        }
        lemma_split_plain(s.drop_last(), sep);
        assert(s.last() != sep) by {
            assert(s[s.len() - 1] == s.last());
        }
        assert(s.drop_last().push(s.last()) =~= s);
        assert(seq![s.drop_last()].update(0, s.drop_last().push(s.last())) =~= seq![s]);
    } else {
        assert(s =~= Seq::<char>::empty());
    }
}

/// Splitting `a`, the separator, then `b` gives the pieces of `a` followed by those of `b`.
pub proof fn lemma_split_concat(a: Seq<char>, b: Seq<char>, sep: char)
    ensures
        spec_split(a + seq![sep] + b, sep) == spec_split(a, sep) + spec_split(b, sep),
    decreases b.len(),
{
    let s = a + seq![sep] + b;
    if b.len() == 0 {
        assert(s.drop_last() =~= a);
        assert(s.last() == sep);
        assert(spec_split(b, sep) == seq![Seq::<char>::empty()]);
        assert(spec_split(a, sep).push(Seq::empty()) =~= spec_split(a, sep) + seq![Seq::<char>::empty()]);
    } else {
        assert(s.drop_last() =~= a + seq![sep] + b.drop_last());
        assert(s.last() == b.last());
        lemma_split_concat(a, b.drop_last(), sep);
        let x = spec_split(a, sep);
        let y = spec_split(b.drop_last(), sep);
        crate::text::lemma_split_nonempty(b.drop_last(), sep);
        if b.last() == sep {
            assert((x + y).push(Seq::empty()) =~= x + y.push(Seq::empty()));
        } else {
            assert((x + y).update((x + y).len() - 1, (x + y).last().push(b.last())) =~= x + y.update(
                y.len() - 1,
                y.last().push(b.last()),
            ));
        }
    }
}

/// `p + "|" + q` with `q` free of `|` splits into the pieces of `p` and then `q`.
proof fn lemma_split_bar(p: Seq<char>, q: Seq<char>)
    requires
        !q.contains('|'),
    ensures
        spec_split(p + "|"@ + q, '|') == spec_split(p, '|').push(q),
{
    reveal_strlit("|");
    assert(p + "|"@ + q =~= p + seq!['|'] + q);
    lemma_split_concat(p, q, '|');
    lemma_split_plain(q, '|');
    assert(spec_split(p, '|') + seq![q] =~= spec_split(p, '|').push(q));
}

/// Splitting `t + s` after the tag `t` gives back `s`.
proof fn lemma_drop_tag(t: Seq<char>, s: Seq<char>)
    ensures
        spec_has_prefix(t + s, t),
        (t + s).subrange(t.len() as int, (t + s).len() as int) == s,
{
    assert((t + s).subrange(0, t.len() as int) =~= t);
    assert((t + s).subrange(t.len() as int, (t + s).len() as int) =~= s);
}

/// The dimensions of a bucket, none of which holds the separator `|`.
pub open spec fn spec_plain_bucket(b: PredictionBucket) -> bool {
    &&& !b.sample_depth_bucket@.contains('|')
    &&& !b.markov_hit_bucket@.contains('|')
    &&& !b.motif_hit_bucket@.contains('|')
    &&& !b.active_stat_bucket@.contains('|')
    &&& !b.tier_signal_bucket@.contains('|')
}

/// The readable form that each scope's key is meant to take.
pub open spec fn spec_readable(b: PredictionBucket, scope: BucketScope) -> Seq<char> {
    match scope {
        BucketScope::Active4d => "4d(active) depth="@ + b.sample_depth_bucket@ + " / markov="@ + b.markov_hit_bucket@
            + " / motif="@ + b.motif_hit_bucket@ + " / active="@ + b.active_stat_bucket@,
        BucketScope::Context4d => "4d(ctx) depth="@ + b.sample_depth_bucket@ + " / markov="@ + b.markov_hit_bucket@
            + " / motif="@ + b.motif_hit_bucket@ + " / ctx="@ + b.tier_signal_bucket@,
        BucketScope::Core3d => "3d depth="@ + b.sample_depth_bucket@ + " / markov="@ + b.markov_hit_bucket@
            + " / motif="@ + b.motif_hit_bucket@,
        BucketScope::Full5d => "5d depth="@ + b.sample_depth_bucket@ + " / markov="@ + b.markov_hit_bucket@
            + " / motif="@ + b.motif_hit_bucket@ + " / active="@ + b.active_stat_bucket@ + " / ctx="@
            + b.tier_signal_bucket@,
    }
}

/// The readable form of a bucket's scoped key names each of the scope's dimensions with
/// its value, provided no dimension holds `|` and, for the full key, the key does not
/// itself begin like a tagged one.
pub proof fn law_format_scoped_key(b: PredictionBucket, scope: BucketScope)
    requires
        spec_plain_bucket(b),
        scope == BucketScope::Full5d ==> !spec_has_prefix(spec_key(b), "4a:"@) && !spec_has_prefix(spec_key(b), "4c:"@)
            && !spec_has_prefix(spec_key(b), "3:"@),
    ensures
        spec_format_scoped(spec_scoped_key(b, scope)) == spec_readable(b, scope),
{
    reveal_strlit("4a:");
    reveal_strlit("4c:");
    reveal_strlit("3:");
    let f0 = b.sample_depth_bucket@;
    let f1 = b.markov_hit_bucket@;
    let f2 = b.motif_hit_bucket@;
    let f3 = b.active_stat_bucket@;
    let f4 = b.tier_signal_bucket@;
    lemma_split_plain(f0, '|');
    lemma_split_bar(f0, f1);
    lemma_split_bar(f0 + "|"@ + f1, f2);
    let three = f0 + "|"@ + f1 + "|"@ + f2;
    assert(spec_split(three, '|') =~= seq![f0, f1, f2]);
    match scope {
        BucketScope::Active4d => {
            lemma_split_bar(three, f3);
            assert(spec_split(three + "|"@ + f3, '|') =~= seq![f0, f1, f2, f3]);
            let k = spec_scoped_key(b, scope);
            assert(k =~= "4a:"@ + (three + "|"@ + f3));
            lemma_drop_tag("4a:"@, three + "|"@ + f3);
        },
        BucketScope::Context4d => {
            lemma_split_bar(three, f4);
            assert(spec_split(three + "|"@ + f4, '|') =~= seq![f0, f1, f2, f4]);
            let k = spec_scoped_key(b, scope);
            assert(k =~= "4c:"@ + (three + "|"@ + f4));
            lemma_drop_tag("4c:"@, three + "|"@ + f4);
            assert(k.subrange(0, 3)[1] == 'c');
            assert(!spec_has_prefix(k, "4a:"@));
        },
        BucketScope::Core3d => {
            let k = spec_scoped_key(b, scope);
            assert(k =~= "3:"@ + three);
            lemma_drop_tag("3:"@, three);
            assert(k[0] == '3');
            assert(!spec_has_prefix(k, "4a:"@)) by {
                if spec_has_prefix(k, "4a:"@) {
                    assert(k.subrange(0, 3)[0] == k[0]);
                }
            }
            assert(!spec_has_prefix(k, "4c:"@)) by {
                if spec_has_prefix(k, "4c:"@) {
                    assert(k.subrange(0, 3)[0] == k[0]);
                }
            }
        },
        BucketScope::Full5d => {
            lemma_split_bar(three, f3);
            lemma_split_bar(three + "|"@ + f3, f4);
            assert(spec_split(three + "|"@ + f3 + "|"@ + f4, '|') =~= seq![f0, f1, f2, f3, f4]);
            assert(spec_key(b) =~= three + "|"@ + f3 + "|"@ + f4);
        },
    }
}

} // verus!
