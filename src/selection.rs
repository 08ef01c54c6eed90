//! Fitness-proportional (roulette) selection of two distinct parents.
use vstd::prelude::*;
use crate::individual::Individual;
use crate::random::draw_below;

verus! {

/// The excluded position as an integer, `-1` when none is excluded.
pub open spec fn skip_index(skip: Option<usize>) -> int {
    match skip {
        Some(s) => s as int,
        None => -1,
    }
}

/// Total fitness of `p[k]` over the positions `k < j` other than `skip`.
pub open spec fn remaining_sum(p: Seq<Individual>, skip: int, j: int) -> int
    decreases j,
{
    if j <= 0 {
        0
    } else {
        remaining_sum(p, skip, j - 1) + if j - 1 == skip { 0 } else { p[j - 1].fitness as int }
    }
}

/// Number of positions `k < j` other than `skip`.
pub open spec fn remaining_count(skip: int, j: int) -> int {
    if 0 <= skip < j {
        j - 1
    } else {
        j
    }
}

/// The range a draw must come from: the remaining total fitness, or the
/// number of remaining candidates when that total is zero.
pub open spec fn draw_bound(p: Seq<Individual>, skip: int) -> int {
    if remaining_sum(p, skip, p.len() as int) > 0 {
        remaining_sum(p, skip, p.len() as int)
    } else {
        remaining_count(skip, p.len() as int)
    }
}

proof fn lemma_remaining_sum_bound(p: Seq<Individual>, skip: int, j: int)
    requires
        0 <= j <= p.len(),
    ensures
        0 <= remaining_sum(p, skip, j) <= j * (u64::MAX as int),
    decreases j,
{
    if j > 0 {
        lemma_remaining_sum_bound(p, skip, j - 1);
    }
}

proof fn lemma_remaining_sum_mono(p: Seq<Individual>, skip: int, i: int, j: int)
    requires
        0 <= i <= j <= p.len(),
    ensures
        remaining_sum(p, skip, i) <= remaining_sum(p, skip, j),
    decreases j - i,
{
    if i < j {
        lemma_remaining_sum_mono(p, skip, i, j - 1);
    }
}

fn is_skipped(skip: Option<usize>, j: usize) -> (r: bool)
    ensures
        r == (j as int == skip_index(skip)),
{
    match skip {
        Some(s) => s == j,
        None => false,
    }
}

/// Total fitness of the individuals other than `skip`.
pub fn remaining_total(p: &Vec<Individual>, skip: Option<usize>) -> (t: u128)
    ensures
        t as int == remaining_sum(p@, skip_index(skip), p.len() as int),
{
    let n = p.len();
    let mut t: u128 = 0;
    let mut j: usize = 0;
    while j < n
        invariant
            n == p.len(),
            j <= n,
            t as int == remaining_sum(p@, skip_index(skip), j as int),
        decreases n - j,
    {
        proof {
            lemma_remaining_sum_bound(p@, skip_index(skip), j as int + 1);
            assert((j as int + 1) * (u64::MAX as int) <= u128::MAX) by (nonlinear_arith)
                requires
                    j < usize::MAX,
            ;
        }
        if !is_skipped(skip, j) {
            t = t + p[j].fitness as u128;
        }
        j = j + 1;
    }
    t
}

/// One spin of the wheel. Walking the individuals in order and leaving out
/// `skip`, each adds its fitness to a running total (or one, when the
/// remaining total fitness is zero); the first at which `r` falls below the
/// running total is picked.
pub fn roulette_pick(p: &Vec<Individual>, skip: Option<usize>, r: u128) -> (j: usize)
    requires
        skip_index(skip) < p.len(),
        r < draw_bound(p@, skip_index(skip)),
    ensures
        j < p.len(),
        j as int != skip_index(skip),
        remaining_sum(p@, skip_index(skip), p.len() as int) > 0 ==> remaining_sum(
            p@,
            skip_index(skip),
            j as int,
        ) <= r < remaining_sum(p@, skip_index(skip), j as int + 1),
        remaining_sum(p@, skip_index(skip), p.len() as int) == 0 ==> j as int == if 0
            <= skip_index(skip) <= r {
            r + 1
        } else {
            r as int
        },
{
    let ghost s = skip_index(skip);
    let n = p.len();
    let total = remaining_total(p, skip);
    let uniform = total == 0;
    let mut acc: u128 = 0;
    let mut j: usize = 0;
    while j < n
        invariant
            n == p.len(),
            j <= n,
            s == skip_index(skip),
            s < n,
            uniform == (remaining_sum(p@, s, n as int) == 0),
            r < draw_bound(p@, s),
            acc as int == if uniform {
                remaining_count(s, j as int)
            } else {
                remaining_sum(p@, s, j as int)
            },
            acc <= r,
        decreases n - j,
    {
        proof {
            lemma_remaining_sum_mono(p@, s, j as int + 1, n as int);
            lemma_remaining_sum_bound(p@, s, n as int);
            assert((n as int) * (u64::MAX as int) <= u128::MAX) by (nonlinear_arith)
                requires
                    n <= usize::MAX,
            ;
        }
        if !is_skipped(skip, j) {
            if uniform {
                acc = acc + 1;
            } else {
                acc = acc + p[j].fitness as u128;
            }
            if r < acc {
                return j;
            }
        }
        j = j + 1;
    }
    proof {
        assert(false);
    }
    0
}

/// Two distinct individuals, each drawn with probability proportional to
/// its fitness among those not yet drawn; uniformly when that total is zero.
pub fn roulette_selection(rng: &mut rand::rngs::StdRng, p: &Vec<Individual>) -> (sel: Vec<
    Individual,
>)
    requires
        p.len() >= 2,
    ensures
        sel.len() == 2,
        exists|a: int, b: int|
            0 <= a < p.len() && 0 <= b < p.len() && a != b && sel[0]@ == p[a]@ && sel[1]@
                == p[b]@ && (remaining_sum(p@, -1, p.len() as int) > 0 ==> p[a].fitness > 0) && (
            remaining_sum(p@, a, p.len() as int) > 0 ==> p[b].fitness > 0),
{
    let mut sel: Vec<Individual> = Vec::with_capacity(2);
    let t0 = remaining_total(p, None);
    let bound0: u128 = if t0 > 0 { t0 } else { p.len() as u128 };
    let r0 = draw_below(rng, bound0);
    let a = roulette_pick(p, None, r0);
    sel.push(p[a].clone());
    let t1 = remaining_total(p, Some(a));
    let bound1: u128 = if t1 > 0 { t1 } else { (p.len() - 1) as u128 };
    let r1 = draw_below(rng, bound1);
    let b = roulette_pick(p, Some(a), r1);
    sel.push(p[b].clone());
    assert(sel[0]@ == p[a as int]@ && sel[1]@ == p[b as int]@);
    assert(remaining_sum(p@, -1, a as int + 1) == remaining_sum(p@, -1, a as int) + p[a as int].fitness);
    assert(remaining_sum(p@, a as int, b as int + 1) == remaining_sum(p@, a as int, b as int)
        + p[b as int].fitness);
    sel
}

/// `m` is the lowest fitness in `p`.
pub open spec fn is_lowest_fitness(p: Seq<Individual>, m: u64) -> bool {
    &&& forall|i: int| 0 <= i < p.len() ==> m <= #[trigger] p[i].fitness
    &&& exists|i: int| 0 <= i < p.len() && #[trigger] p[i].fitness == m
}

/// `q` is `p` with `m` taken off every fitness and the genes kept.
pub open spec fn shifted_by(p: Seq<Individual>, q: Seq<Individual>, m: u64) -> bool {
    &&& q.len() == p.len()
    &&& forall|i: int|
        0 <= i < p.len() ==> #[trigger] q[i].genes@ == p[i].genes@ && q[i].fitness == p[i].fitness
            - m
}

/// Subtracts the lowest fitness in the population from every fitness, so
/// that all selection weights are non-negative and the worst weighs zero.
pub fn shift_fitness(p: &mut Vec<Individual>)
    requires
        old(p).len() > 0,
    ensures
        final(p).len() == old(p).len(),
        exists|m: u64| #[trigger] is_lowest_fitness(old(p)@, m) && shifted_by(old(p)@, final(p)@, m),
{
    let n = p.len();
    let mut worst: u64 = p[0].fitness;
    let mut w: usize = 0;
    let mut i: usize = 1;
    while i < n
        invariant
            n == p.len(),
            1 <= i <= n,
            w < n,
            worst == p[w as int].fitness,
            forall|k: int| 0 <= k < i ==> worst <= #[trigger] p[k].fitness,
        decreases n - i,
    {
        if p[i].fitness < worst {
            worst = p[i].fitness;
            w = i;
        }
        i = i + 1;
    }
    let ghost before = p@;
    let mut i: usize = 0;
    while i < n
        invariant
            n == p.len() == before.len(),
            i <= n,
            w < n,
            worst == before[w as int].fitness,
            forall|k: int| 0 <= k < n ==> worst <= #[trigger] before[k].fitness,
            forall|k: int|
                0 <= k < i ==> #[trigger] p[k].genes@ == before[k].genes@ && p[k].fitness
                    == before[k].fitness - worst,
            forall|k: int| i <= k < n ==> #[trigger] p[k] == before[k],
        decreases n - i,
    {
        let f = p[i].fitness - worst;
        p[i].fitness = f;
        assert(p[i as int].genes@ == before[i as int].genes@);
        i = i + 1;
    }
    assert(before[w as int].fitness == worst);
    assert(is_lowest_fitness(before, worst));
    assert(shifted_by(before, p@, worst));
}

} // verus!
