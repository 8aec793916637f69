//! Recorded prediction runs: the key a run is stored under, and how a run is scored once
//! the next stat is known.
use vstd::prelude::*;
use vstd::string::*;
use crate::numtext::{decimal_string, spec_decimal};
use crate::shape::{build_tail_signature, spec_tail_signature};
use crate::text::same_text;

verus! {

/// `<game day>|<sequence length>|<tail signature>|<mode>|0`.
pub open spec fn spec_context_hash(game_day: Seq<char>, seq: Seq<Seq<char>>, mode: Seq<char>) -> Seq<char> {
    game_day + "|"@ + spec_decimal(seq.len() as int) + "|"@ + spec_tail_signature(seq) + "|"@ + mode + "|0"@
}

/// The key a prediction run for a day's sequence is stored under.
pub fn prediction_context_hash(game_day: &str, seq: &[String], mode: &str) -> (r: String)
    requires
        seq.len() <= i64::MAX,
    ensures
        r@ == spec_context_hash(game_day@, seq.deep_view(), mode@),
{
    let mut s = game_day.to_owned();
    s.append("|");
    let n = decimal_string(seq.len() as i64);
    s.append(n.as_str());
    s.append("|");
    let t = build_tail_signature(seq);
    s.append(t.as_str());
    s.append("|");
    s.append(mode);
    s.append("|0");
    s
}

/// Whether the actual stat is the first ranked one, and whether it is among the first three.
pub open spec fn spec_hits(ranked: Seq<Seq<char>>, actual: Seq<char>) -> (bool, bool) {
    (
        ranked.len() > 0 && ranked[0] == actual,
        exists|i: int| 0 <= i < ranked.len() && i < 3 && ranked[i] == actual,
    )
}

/// Scores a run's ranked predictions against the stat that actually came.
pub fn prediction_hits(ranked: &Vec<String>, actual: &str) -> (r: (bool, bool))
    ensures
        r == spec_hits(ranked.deep_view(), actual@),
{
    let top1 = ranked.len() > 0 && same_text(ranked[0].as_str(), actual);
    let mut top3 = false;
    let mut i: usize = 0;
    while i < ranked.len() && i < 3
        invariant
            i <= ranked.len(),
            i <= 3,
            top3 == exists|j: int| 0 <= j < i && ranked.deep_view()[j] == actual@,
        decreases ranked.len() - i,
    {
        if same_text(ranked[i].as_str(), actual) {
            assert(ranked.deep_view()[i as int] == actual@);
            top3 = true;
        }
        i = i + 1;
    }
    (top1, top3)
}

/// A top-ranked hit is also a hit among the first three.
pub proof fn law_top1_within_top3(ranked: Seq<Seq<char>>, actual: Seq<char>)
    ensures
        spec_hits(ranked, actual).0 ==> spec_hits(ranked, actual).1,
{
    if spec_hits(ranked, actual).0 {
        assert(0 < ranked.len() && 0 < 3 && ranked[0] == actual);
    }
}

} // verus!
