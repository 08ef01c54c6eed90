//! Summary of the best fitness values of repeated runs.
use vstd::prelude::*;

verus! {

/// Sum of the first `n` entries of `x`.
pub open spec fn seq_total(x: Seq<u64>, n: int) -> int
    decreases n,
{
    if n <= 0 {
        0
    } else {
        seq_total(x, n - 1) + x[n - 1] as int
    }
}

proof fn lemma_seq_total_bound(x: Seq<u64>, n: int)
    requires
        0 <= n <= x.len(),
    ensures
        0 <= seq_total(x, n) <= n * (u64::MAX as int),
    decreases n,
{
    if n > 0 {
        lemma_seq_total_bound(x, n - 1);
    }
}

/// The total (for the mean), the largest and the smallest of a non-empty
/// list of fitness values.
pub fn total_best_worst(x: &Vec<u64>) -> (r: (u128, u64, u64))
    requires
        x.len() > 0,
    ensures
        r.0 as int == seq_total(x@, x.len() as int),
        x@.contains(r.1),
        forall|i: int| 0 <= i < x.len() ==> #[trigger] x[i] <= r.1,
        x@.contains(r.2),
        forall|i: int| 0 <= i < x.len() ==> #[trigger] x[i] >= r.2,
{
    let n = x.len();
    let mut best: u64 = x[0];
    let mut worst: u64 = x[n - 1];
    let mut total: u128 = 0;
    let mut i: usize = 0;
    while i < n
        invariant
            n == x.len(),
            0 < n,
            i <= n,
            total as int == seq_total(x@, i as int),
            x@.contains(best),
            x@.contains(worst),
            forall|k: int| 0 <= k < i ==> #[trigger] x[k] <= best,
            forall|k: int| 0 <= k < i ==> #[trigger] x[k] >= worst,
        decreases n - i,
    {
        proof {
            lemma_seq_total_bound(x@, i as int + 1);
            assert((i as int + 1) * (u64::MAX as int) <= u128::MAX) by (nonlinear_arith)
                requires
                    i < usize::MAX,
            ;
        }
        total = total + x[i] as u128;
        if best < x[i] {
            best = x[i];
        }
        if worst > x[i] {
            worst = x[i];
        }
        i = i + 1;
    }
    (total, best, worst)
}

} // verus!
