//! A 0/1 knapsack instance and its objective.
use vstd::prelude::*;

verus! {

/// Sum of `xs[k]` over the first `n` positions `k` where `genes[k]` holds.
pub open spec fn chosen_sum(xs: Seq<u64>, genes: Seq<bool>, n: int) -> int
    decreases n,
{
    if n <= 0 {
        0
    } else {
        chosen_sum(xs, genes, n - 1) + if genes[n - 1] { xs[n - 1] as int } else { 0 }
    }
}

/// Sum of the first `n` entries of `xs`.
pub open spec fn prefix_sum(xs: Seq<u64>, n: int) -> int
    decreases n,
{
    if n <= 0 {
        0
    } else {
        prefix_sum(xs, n - 1) + xs[n - 1] as int
    }
}

proof fn lemma_chosen_le_prefix(xs: Seq<u64>, genes: Seq<bool>, n: int)
    requires
        0 <= n <= xs.len(),
    ensures
        0 <= chosen_sum(xs, genes, n) <= prefix_sum(xs, n),
    decreases n,
{
    if n > 0 {
        lemma_chosen_le_prefix(xs, genes, n - 1);
    }
}

pub struct Knapsack {
    pub weights: Vec<u64>,
    pub values: Vec<u64>,
    pub capacity: u64,
    pub optimum: u64,
}

impl Knapsack {
    /// One weight and one value per item, and neither the total weight nor
    /// the total value overflows.
    pub open spec fn wf(&self) -> bool {
        &&& self.weights.len() == self.values.len()
        &&& prefix_sum(self.weights@, self.weights.len() as int) <= u64::MAX
        &&& prefix_sum(self.values@, self.values.len() as int) <= u64::MAX
    }

    /// The value of a selection whose weight fits the capacity, zero otherwise.
    pub open spec fn value_of(&self, genes: Seq<bool>) -> int {
        let n = self.weights.len() as int;
        if chosen_sum(self.weights@, genes, n) <= self.capacity as int {
            chosen_sum(self.values@, genes, n)
        } else {
            0
        }
    }

    /// Whether `wf` holds.
    pub fn is_valid(&self) -> (r: bool)
        ensures
            r == self.wf(),
    {
        if self.weights.len() != self.values.len() {
            return false;
        }
        let n = self.weights.len();
        let mut tw: u64 = 0;
        let mut tv: u64 = 0;
        let mut i: usize = 0;
        while i < n
            invariant
                n == self.weights.len() == self.values.len(),
                i <= n,
                tw as int == prefix_sum(self.weights@, i as int),
                tv as int == prefix_sum(self.values@, i as int),
            decreases n - i,
        {
            match (tw.checked_add(self.weights[i]), tv.checked_add(self.values[i])) {
                (Some(a), Some(b)) => {
                    tw = a;
                    tv = b;
                },
                _ => {
                    proof {
                        lemma_prefix_mono(self.weights@, i as int + 1, n as int);
                        lemma_prefix_mono(self.values@, i as int + 1, n as int);
                    }
                    return false;
                },
            }
            i = i + 1;
        }
        true
    }

    /// The fitness of a selection of items.
    pub fn objective(&self, genes: &Vec<bool>) -> (r: u64)
        requires
            self.wf(),
            genes.len() == self.weights.len(),
        ensures
            r as int == self.value_of(genes@),
    {
        let n = self.weights.len();
        let mut tw: u64 = 0;
        let mut tv: u64 = 0;
        let mut i: usize = 0;
        while i < n
            invariant
                self.wf(),
                n == self.weights.len() == genes.len(),
                i <= n,
                tw as int == chosen_sum(self.weights@, genes@, i as int),
                tv as int == chosen_sum(self.values@, genes@, i as int),
            decreases n - i,
        {
            proof {
                lemma_chosen_le_prefix(self.weights@, genes@, i as int + 1);
                lemma_chosen_le_prefix(self.values@, genes@, i as int + 1);
                lemma_prefix_mono(self.weights@, i as int + 1, n as int);
                lemma_prefix_mono(self.values@, i as int + 1, n as int);
            }
            if genes[i] {
                tw = tw + self.weights[i];
                tv = tv + self.values[i];
            }
            i = i + 1;
        }
        if tw <= self.capacity {
            tv
        } else {
            0
        }
    }
}

proof fn lemma_prefix_mono(xs: Seq<u64>, i: int, j: int)
    requires
        0 <= i <= j <= xs.len(),
    ensures
        prefix_sum(xs, i) <= prefix_sum(xs, j),
    decreases j - i,
{
    if i < j {
        lemma_prefix_mono(xs, i, j - 1);
    }
}

} // verus!
