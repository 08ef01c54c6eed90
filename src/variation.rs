//! Single-point crossover and bit-flip mutation.
use vstd::prelude::*;
use crate::individual::Individual;
use crate::random::draw_below;
use crate::RATE_SCALE;

verus! {

/// `a2`, `b2` are `a`, `b` with their genes before position `c` exchanged.
pub open spec fn crossed_at(a: Seq<bool>, b: Seq<bool>, a2: Seq<bool>, b2: Seq<bool>, c: int) -> bool {
    &&& a2.len() == a.len()
    &&& b2.len() == b.len()
    &&& forall|k: int| 0 <= k < a.len() ==> #[trigger] a2[k] == if k < c { b[k] } else { a[k] }
    &&& forall|k: int| 0 <= k < b.len() ==> #[trigger] b2[k] == if k < c { a[k] } else { b[k] }
}

/// Exchanges the genes of the two individuals at positions `[0, c)`. The
/// fitness values are left as they were.
pub fn crossover_at(selected: &mut Vec<Individual>, c: usize)
    requires
        old(selected).len() == 2,
        c <= old(selected)[0].genes.len(),
        c <= old(selected)[1].genes.len(),
    ensures
        final(selected).len() == 2,
        final(selected)[0].fitness == old(selected)[0].fitness,
        final(selected)[1].fitness == old(selected)[1].fitness,
        crossed_at(
            old(selected)[0].genes@,
            old(selected)[1].genes@,
            final(selected)[0].genes@,
            final(selected)[1].genes@,
            c as int,
        ),
{
    let ghost a = selected[0].genes@;
    let ghost b = selected[1].genes@;
    let ghost fa = selected[0].fitness;
    let ghost fb = selected[1].fitness;
    let mut i: usize = 0;
    while i < c
        invariant
            selected.len() == 2,
            i <= c,
            c <= a.len(),
            c <= b.len(),
            selected[0].fitness == fa,
            selected[1].fitness == fb,
            selected[0].genes.len() == a.len(),
            selected[1].genes.len() == b.len(),
            forall|k: int|
                0 <= k < a.len() ==> #[trigger] selected[0].genes[k] == if k < i {
                    b[k]
                } else {
                    a[k]
                },
            forall|k: int|
                0 <= k < b.len() ==> #[trigger] selected[1].genes[k] == if k < i {
                    a[k]
                } else {
                    b[k]
                },
        decreases c - i,
    {
        let temp: bool = selected[0].genes[i];
        let other: bool = selected[1].genes[i];
        selected[0].genes.set(i, other);
        selected[1].genes.set(i, temp);
        i = i + 1;
    }
}

/// Draws a crossover point in `[1, n_genes)` and exchanges the genes of the
/// two individuals before it.
pub fn single_point_crossover(
    rng: &mut rand::rngs::StdRng,
    selected: &mut Vec<Individual>,
    n_genes: usize,
)
    requires
        n_genes >= 2,
        old(selected).len() == 2,
        old(selected)[0].genes.len() == n_genes,
        old(selected)[1].genes.len() == n_genes,
    ensures
        final(selected).len() == 2,
        final(selected)[0].fitness == old(selected)[0].fitness,
        final(selected)[1].fitness == old(selected)[1].fitness,
        exists|c: int|
            1 <= c < n_genes && #[trigger] crossed_at(
                old(selected)[0].genes@,
                old(selected)[1].genes@,
                final(selected)[0].genes@,
                final(selected)[1].genes@,
                c,
            ),
{
    let c = 1 + draw_below(rng, (n_genes - 1) as u128) as usize;
    crossover_at(selected, c);
}

/// The gene after mutation: flipped exactly when its draw is below `rate`.
pub open spec fn mutated(g: bool, draw: u128, rate: u32) -> bool {
    if draw < rate as u128 {
        !g
    } else {
        g
    }
}

/// Flips each gene whose draw (a value in parts per million) is below
/// `rate`.
pub fn mutate_genes(genes: &mut Vec<bool>, draws: &Vec<u128>, rate: u32)
    requires
        draws.len() == old(genes).len(),
    ensures
        final(genes).len() == old(genes).len(),
        forall|k: int|
            0 <= k < old(genes).len() ==> #[trigger] final(genes)[k] == mutated(
                old(genes)[k],
                draws[k],
                rate,
            ),
{
    let ghost g0 = genes@;
    let n = genes.len();
    let mut k: usize = 0;
    while k < n
        invariant
            n == genes.len() == g0.len() == draws.len(),
            k <= n,
            forall|m: int| 0 <= m < k ==> #[trigger] genes[m] == mutated(g0[m], draws[m], rate),
            forall|m: int| k <= m < n ==> #[trigger] genes[m] == g0[m],
        decreases n - k,
    {
        if draws[k] < rate as u128 {
            let g = genes[k];
            genes.set(k, !g);
        }
        k = k + 1;
    }
}

/// Independently flips every gene of every individual with probability
/// `rate / RATE_SCALE`. Fitness values are left stale.
pub fn mutation(rng: &mut rand::rngs::StdRng, p: &mut Vec<Individual>, rate: u32)
    ensures
        final(p).len() == old(p).len(),
        forall|i: int|
            0 <= i < old(p).len() ==> (#[trigger] final(p)[i]).genes.len() == old(p)[i].genes.len()
                && final(p)[i].fitness == old(p)[i].fitness,
        rate == 0 ==> forall|i: int| 0 <= i < old(p).len() ==> #[trigger] final(p)[i]@ == old(p)[i]@,
        rate >= RATE_SCALE ==> forall|i: int, k: int|
            0 <= i < old(p).len() && 0 <= k < old(p)[i].genes.len() ==> #[trigger] final(p)[i].genes[k]
                == !old(p)[i].genes[k],
{
    let ghost p0 = p@;
    let n = p.len();
    let mut i: usize = 0;
    while i < n
        invariant
            n == p.len() == p0.len(),
            i <= n,
            forall|m: int|
                0 <= m < n ==> (#[trigger] p[m]).genes.len() == p0[m].genes.len() && p[m].fitness
                    == p0[m].fitness,
            forall|m: int| i <= m < n ==> #[trigger] p[m]@ == p0[m]@,
            rate == 0 ==> forall|m: int| 0 <= m < n ==> #[trigger] p[m]@ == p0[m]@,
            rate >= RATE_SCALE ==> forall|m: int, k: int|
                0 <= m < i && 0 <= k < p0[m].genes.len() ==> #[trigger] p[m].genes[k]
                    == !p0[m].genes[k],
        decreases n - i,
    {
        let len = p[i].genes.len();
        let mut draws: Vec<u128> = Vec::with_capacity(len);
        let mut k: usize = 0;
        while k < len
            invariant
                k <= len,
                draws.len() == k,
                forall|m: int| 0 <= m < k ==> #[trigger] draws[m] < RATE_SCALE as u128,
            decreases len - k,
        {
            draws.push(draw_below(rng, RATE_SCALE as u128));
            k = k + 1;
        }
        assert(p[i as int]@ == p0[i as int]@);
        let mut genes = p[i].genes.clone();
        assert(genes@ =~= p0[i as int].genes@);
        mutate_genes(&mut genes, &draws, rate);
        proof {
            if rate == 0 {
                assert(genes@ =~= p0[i as int].genes@);
            }
        }
        p[i].genes = genes;
        i = i + 1;
    }
}

} // verus!
