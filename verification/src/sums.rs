//! Finite sums of natural numbers over `0..n`, and the facts about them that the counting
//! laws use.
use vstd::prelude::*;

verus! {

/// `f(0) + .. + f(n - 1)`.
pub open spec fn spec_sum(f: spec_fn(int) -> nat, n: int) -> nat
    decreases n,
{
    if n <= 0 {
        0
    } else {
        spec_sum(f, n - 1) + f(n - 1)
    }
}

/// Sums of functions that agree on `0..n` agree.
pub proof fn lemma_sum_ext(f: spec_fn(int) -> nat, g: spec_fn(int) -> nat, n: int)
    requires
        forall|i: int| 0 <= i < n ==> #[trigger] f(i) == g(i),
    ensures
        spec_sum(f, n) == spec_sum(g, n),
    decreases n,
{
    if n > 0 {
        lemma_sum_ext(f, g, n - 1);
    }
}

/// The sum of a pointwise sum is the sum of the sums.
pub proof fn lemma_sum_add(f: spec_fn(int) -> nat, g: spec_fn(int) -> nat, h: spec_fn(int) -> nat, n: int)
    requires
        forall|i: int| 0 <= i < n ==> #[trigger] h(i) == f(i) + g(i),
    ensures
        spec_sum(h, n) == spec_sum(f, n) + spec_sum(g, n),
    decreases n,
{
    if n > 0 {
        lemma_sum_add(f, g, h, n - 1);
    }
}

/// A sum of zeros is zero.
pub proof fn lemma_sum_zero(f: spec_fn(int) -> nat, n: int)
    requires
        forall|i: int| 0 <= i < n ==> #[trigger] f(i) == 0,
    ensures
        spec_sum(f, n) == 0,
    decreases n,
{
    if n > 0 {
        lemma_sum_zero(f, n - 1);
    }
}

/// A function that is `c` at `j` and zero elsewhere sums to `c` when `j` is in range.
pub proof fn lemma_sum_single(f: spec_fn(int) -> nat, j: int, c: nat, n: int)
    requires
        forall|i: int| 0 <= i < n && i != j ==> #[trigger] f(i) == 0,
        0 <= j < n ==> f(j) == c,
    ensures
        spec_sum(f, n) == if 0 <= j < n { c } else { 0 },
    decreases n,
{
    if n > 0 {
        if j == n - 1 {
            lemma_sum_zero(f, n - 1);
        } else {
            lemma_sum_single(f, j, c, n - 1);
        }
    }
}

} // verus!
