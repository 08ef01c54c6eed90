//! Populations: evaluation, ordering by fitness, and elitist replacement.
use vstd::prelude::*;
use vstd::multiset::Multiset;
use crate::individual::Individual;
use crate::knapsack::Knapsack;
use crate::RATE_SCALE;

verus! {

broadcast use {
    vstd::seq_lib::group_to_multiset_ensures,
    vstd::multiset::group_multiset_axioms,
};

/// Fitness never increases along the population.
pub open spec fn sorted_desc(p: Seq<Individual>) -> bool {
    forall|i: int, j: int| 0 <= i < j < p.len() ==> p[i].fitness >= p[j].fitness
}

/// Every individual has one gene per item and its fitness is the knapsack
/// value of its genes.
pub open spec fn evaluated(k: &Knapsack, p: Seq<Individual>) -> bool {
    forall|i: int|
        0 <= i < p.len() ==> (#[trigger] p[i]).genes.len() == k.weights.len() && p[i].fitness
            == k.value_of(p[i].genes@)
}

/// The gene vectors of a population, in order.
pub open spec fn genes_of(p: Seq<Individual>) -> Seq<Seq<bool>> {
    p.map_values(|x: Individual| x.genes@)
}

/// Some individual of `p` carries the genes `g`.
pub open spec fn has_genes(p: Seq<Individual>, g: Seq<bool>) -> bool {
    exists|i: int| 0 <= i < p.len() && (#[trigger] p[i]).genes@ == g
}

/// Reorders the population by fitness, highest first.
pub fn sort_by_fitness(p: &mut Vec<Individual>)
    ensures
        sorted_desc(final(p)@),
        final(p)@.to_multiset() == old(p)@.to_multiset(),
        genes_of(final(p)@).to_multiset() == genes_of(old(p)@).to_multiset(),
{
    let ghost p0 = p@;
    let mut out: Vec<Individual> = Vec::new();
    proof {
        assert(out@.to_multiset() =~= Multiset::empty());
        assert(genes_of(out@) =~= Seq::empty());
        assert(genes_of(out@).to_multiset() =~= Multiset::empty());
        assert(out@.to_multiset().add(p@.to_multiset()) =~= p0.to_multiset());
        assert(genes_of(out@).to_multiset().add(genes_of(p@).to_multiset()) =~= genes_of(
            p0,
        ).to_multiset());
    }
    while p.len() > 0
        invariant
            sorted_desc(out@),
            out@.to_multiset().add(p@.to_multiset()) == p0.to_multiset(),
            genes_of(out@).to_multiset().add(genes_of(p@).to_multiset()) == genes_of(
                p0,
            ).to_multiset(),
        decreases p.len(),
    {
        let ghost before = p@;
        let x = p.pop().unwrap();
        proof {
            assert(before =~= p@.push(x));
            assert(genes_of(before) =~= genes_of(p@).push(x.genes@));
        }
        let mut k: usize = 0;
        while k < out.len() && out[k].fitness >= x.fitness
            invariant
                k <= out.len(),
                forall|m: int| 0 <= m < k ==> out[m].fitness >= x.fitness,
            decreases out.len() - k,
        {
            k = k + 1;
        }
        let ghost o = out@;
        out.insert(k, x);
        proof {
            assert(genes_of(out@) =~= genes_of(o).insert(k as int, x.genes@));
            assert(forall|m: int| k <= m < o.len() ==> o[m].fitness < x.fitness);
            assert(out@.to_multiset().add(p@.to_multiset()) =~= p0.to_multiset());
            assert(genes_of(out@).to_multiset().add(genes_of(p@).to_multiset()) =~= genes_of(
                p0,
            ).to_multiset());
        }
    }
    proof {
        assert(p@ =~= Seq::empty());
        assert(genes_of(p@) =~= Seq::empty());
        assert(out@.to_multiset() =~= p0.to_multiset());
        assert(genes_of(out@).to_multiset() =~= genes_of(p0).to_multiset());
    }
    *p = out;
}

/// Recomputes every fitness from the genes.
pub fn evaluate(k: &Knapsack, p: &mut Vec<Individual>)
    requires
        k.wf(),
        forall|i: int| 0 <= i < old(p).len() ==> (#[trigger] old(p)[i]).genes.len() == k.weights.len(),
    ensures
        final(p).len() == old(p).len(),
        evaluated(k, final(p)@),
        forall|i: int| 0 <= i < old(p).len() ==> (#[trigger] final(p)[i]).genes@ == old(p)[i].genes@,
{
    let ghost p0 = p@;
    let n = p.len();
    let mut i: usize = 0;
    while i < n
        invariant
            k.wf(),
            n == p.len() == p0.len(),
            i <= n,
            forall|m: int| 0 <= m < n ==> (#[trigger] p[m]).genes@ == p0[m].genes@,
            forall|m: int| 0 <= m < n ==> (#[trigger] p[m]).genes.len() == k.weights.len(),
            forall|m: int| 0 <= m < i ==> (#[trigger] p[m]).fitness == k.value_of(p[m].genes@),
        decreases n - i,
    {
        let f = k.objective(&p[i].genes);
        p[i].fitness = f;
        assert(p[i as int].genes@ == p0[i as int].genes@);
        i = i + 1;
    }
}

proof fn lemma_genes_preserved(a: Seq<Individual>, b: Seq<Individual>, j: int)
    requires
        genes_of(a).to_multiset() == genes_of(b).to_multiset(),
        0 <= j < a.len(),
    ensures
        has_genes(b, a[j].genes@),
{
    assert(genes_of(a)[j] == a[j].genes@);
    assert(genes_of(a).contains(a[j].genes@));
    assert(genes_of(a).to_multiset().count(a[j].genes@) > 0);
    assert(genes_of(b).to_multiset().count(a[j].genes@) > 0);
    assert(genes_of(b).contains(a[j].genes@));
    let i = choose|i: int| 0 <= i < genes_of(b).len() && genes_of(b)[i] == a[j].genes@;
    assert(b[i].genes@ == a[j].genes@);
}

proof fn lemma_evaluated_preserved(k: &Knapsack, a: Seq<Individual>, b: Seq<Individual>)
    requires
        evaluated(k, a),
        a.to_multiset() == b.to_multiset(),
    ensures
        evaluated(k, b),
{
    assert forall|i: int| 0 <= i < b.len() implies (#[trigger] b[i]).genes.len() == k.weights.len()
        && b[i].fitness == k.value_of(b[i].genes@) by {
        assert(b.contains(b[i]));
        assert(b.to_multiset().count(b[i]) > 0);
        assert(a.to_multiset().count(b[i]) > 0);
        assert(a.contains(b[i]));
    }
}

/// Recomputes every fitness and reorders the population by fitness, highest
/// first. The same gene vectors remain, each as often as before.
pub fn update_fitness(k: &Knapsack, p: &mut Vec<Individual>)
    requires
        k.wf(),
        forall|i: int| 0 <= i < old(p).len() ==> (#[trigger] old(p)[i]).genes.len() == k.weights.len(),
    ensures
        final(p).len() == old(p).len(),
        evaluated(k, final(p)@),
        sorted_desc(final(p)@),
        forall|i: int|
            0 <= i && i + 1 < final(p).len() ==> (#[trigger] final(p)[i]).fitness >= final(p)[i
                + 1].fitness,
        genes_of(final(p)@).to_multiset() == genes_of(old(p)@).to_multiset(),
        forall|j: int| 0 <= j < old(p).len() ==> #[trigger] has_genes(final(p)@, old(p)[j].genes@),
{
    let ghost p0 = p@;
    evaluate(k, p);
    let ghost p1 = p@;
    proof {
        assert(genes_of(p1) =~= genes_of(p0));
    }
    sort_by_fitness(p);
    proof {
        lemma_evaluated_preserved(k, p1, p@);
        p1.to_multiset_ensures();
        p@.to_multiset_ensures();
        assert forall|j: int| 0 <= j < p0.len() implies #[trigger] has_genes(p@, p0[j].genes@) by {
            lemma_genes_preserved(p0, p@, j);
        }
    }
}

/// The number of elites for a rate in parts per million: the rate times the
/// population size, rounded up.
pub open spec fn spec_n_elites(rate: u32, n: usize) -> int {
    (rate as int * n as int + RATE_SCALE as int - 1) / RATE_SCALE as int
}

/// `ceil(rate * n / RATE_SCALE)`, which is at most `n`.
pub fn n_elites(rate: u32, n: usize) -> (r: usize)
    requires
        rate <= RATE_SCALE,
    ensures
        r as int == spec_n_elites(rate, n),
        r <= n,
{
    proof {
        assert(rate as int * n as int <= RATE_SCALE as int * n as int) by (nonlinear_arith)
            requires
                rate <= RATE_SCALE,
        ;
        assert((RATE_SCALE as int * n as int + RATE_SCALE as int - 1) / RATE_SCALE as int == n)
            by (nonlinear_arith);
        assert(spec_n_elites(rate, n) <= n) by (nonlinear_arith)
            requires
                rate as int * n as int <= RATE_SCALE as int * n as int,
                (RATE_SCALE as int * n as int + RATE_SCALE as int - 1) / RATE_SCALE as int == n,
        ;
        assert(rate as int * n as int <= 1000000 * 0x1_0000_0000_0000_0000) by (nonlinear_arith)
            requires
                rate <= 1000000,
                n <= usize::MAX,
        ;
    }
    let total: u128 = rate as u128 * n as u128 + (RATE_SCALE - 1) as u128;
    (total / RATE_SCALE as u128) as usize
}

/// Elitist replacement: the first `n_elites(rate, p.len())` individuals of
/// `p` stay untouched, and every other slot takes the offspring of
/// `new_p` in order, starting from its first.
pub fn elitism(p: &mut Vec<Individual>, new_p: &Vec<Individual>, rate: u32)
    requires
        rate <= RATE_SCALE,
        new_p.len() >= old(p).len(),
    ensures
        final(p).len() == old(p).len(),
        forall|i: int|
            0 <= i < spec_n_elites(rate, old(p).len()) && i < old(p).len() ==> #[trigger] final(p)[i]
                == old(p)[i],
        forall|i: int|
            spec_n_elites(rate, old(p).len()) <= i < old(p).len() ==> #[trigger] final(p)[i]@
                == new_p[i - spec_n_elites(rate, old(p).len())]@,
{
    let ghost p0 = p@;
    let n = p.len();
    let e = n_elites(rate, n);
    let mut i: usize = e;
    while i < n
        invariant
            n == p.len() == p0.len(),
            e <= i <= n,
            e as int == spec_n_elites(rate, n),
            new_p.len() >= n,
            forall|m: int| 0 <= m < e ==> #[trigger] p[m] == p0[m],
            forall|m: int| e <= m < i ==> #[trigger] p[m]@ == new_p[m - e]@,
        decreases n - i,
    {
        let x = new_p[i - e].clone();
        p.set(i, x);
        i = i + 1;
    }
}

} // verus!
