//! The evolution engine: configuration, initialization and the generation
//! loop.
use vstd::prelude::*;
use crate::individual::Individual;
use crate::knapsack::Knapsack;
use crate::population::{
    elitism,
    evaluated,
    has_genes,
    sorted_desc,
    spec_n_elites,
    update_fitness,
};
use crate::random::{draw_below, draw_bool, fresh_rng};
use crate::selection::{
    is_lowest_fitness,
    remaining_sum,
    roulette_selection,
    shift_fitness,
    shifted_by,
};
use crate::variation::{crossed_at, mutation, single_point_crossover};
use crate::RATE_SCALE;

verus! {

#[derive(Debug, Clone, Copy, PartialEq, Eq, Structural)]
pub enum GaError {
    /// No individuals, fewer than two genes, a rate above `RATE_SCALE`, or a
    /// knapsack whose item lists disagree with the gene count or whose
    /// totals overflow.
    InvalidConfiguration,
}

/// `x` and `y` are the genes of the distinct parents `p[a]` and `p[b]`, or,
/// when the crossover rate is positive, those genes crossed at a point in
/// `[1, n_genes)`. Each parent had positive weight unless every weight left
/// for its draw was zero.
pub open spec fn from_parents(
    p: Seq<Individual>,
    a: int,
    b: int,
    x: Seq<bool>,
    y: Seq<bool>,
    n_genes: int,
    crossover_rate: u32,
) -> bool {
    &&& 0 <= a < p.len()
    &&& 0 <= b < p.len()
    &&& a != b
    &&& remaining_sum(p, -1, p.len() as int) > 0 ==> p[a].fitness > 0
    &&& remaining_sum(p, a, p.len() as int) > 0 ==> p[b].fitness > 0
    &&& (x == p[a].genes@ && y == p[b].genes@) || (crossover_rate > 0 && exists|c: int|
        1 <= c < n_genes && #[trigger] crossed_at(p[a].genes@, p[b].genes@, x, y, c))
}

/// `x` and `y` were bred from some pair of distinct parents of `p`.
pub open spec fn offspring_pair(
    p: Seq<Individual>,
    x: Seq<bool>,
    y: Seq<bool>,
    n_genes: int,
    crossover_rate: u32,
) -> bool {
    exists|a: int, b: int| #[trigger] from_parents(p, a, b, x, y, n_genes, crossover_rate)
}

/// Offspring `2k` and `2k + 1` of `o` form a bred pair; when `2k` is the
/// last offspring, its sibling was bred with it and dropped.
pub open spec fn pair_bred(
    p: Seq<Individual>,
    o: Seq<Individual>,
    k: int,
    n_genes: int,
    crossover_rate: u32,
) -> bool {
    if 2 * k + 1 < o.len() {
        offspring_pair(p, o[2 * k].genes@, o[2 * k + 1].genes@, n_genes, crossover_rate)
    } else {
        exists|y: Seq<bool>| #[trigger] offspring_pair(p, o[2 * k].genes@, y, n_genes, crossover_rate)
    }
}

/// One run's configuration. Rates are in parts per million of `RATE_SCALE`.
pub struct GA {
    pub k: Knapsack,
    pub n_individuals: usize,
    pub n_genes: usize,
    pub n_generations: usize,
    pub crossover_rate: u32,
    pub mutation_rate: u32,
    pub elitism_rate: u32,
}

impl GA {
    /// A configuration the engine can run: at least one individual, and a
    /// crossover point always exists.
    pub open spec fn wf(&self) -> bool {
        &&& self.n_individuals >= 1
        &&& self.n_genes >= 2
        &&& self.crossover_rate <= RATE_SCALE
        &&& self.mutation_rate <= RATE_SCALE
        &&& self.elitism_rate <= RATE_SCALE
        &&& self.k.wf()
        &&& self.k.weights.len() == self.n_genes
    }

    /// Whether `wf` holds.
    pub fn is_valid(&self) -> (r: bool)
        ensures
            r == self.wf(),
    {
        self.n_individuals >= 1 && self.n_genes >= 2 && self.crossover_rate <= RATE_SCALE
            && self.mutation_rate <= RATE_SCALE && self.elitism_rate <= RATE_SCALE
            && self.k.weights.len() == self.n_genes && self.k.is_valid()
    }

    /// A random individual, every gene a fair coin, with its fitness.
    pub fn generate_individual(&self, rng: &mut rand::rngs::StdRng) -> (r: Individual)
        requires
            self.wf(),
        ensures
            r.genes.len() == self.n_genes,
            r.fitness == self.k.value_of(r.genes@),
    {
        let mut g: Vec<bool> = Vec::with_capacity(self.n_genes);
        let mut i: usize = 0;
        while i < self.n_genes
            invariant
                i <= self.n_genes,
                g.len() == i,
            decreases self.n_genes - i,
        {
            g.push(draw_bool(rng));
            i = i + 1;
        }
        let f = self.k.objective(&g);
        Individual { genes: g, fitness: f }
    }

    /// `n_individuals` random individuals, evaluated and sorted by fitness,
    /// highest first.
    pub fn generate_population(&self, rng: &mut rand::rngs::StdRng) -> (p: Vec<Individual>)
        requires
            self.wf(),
        ensures
            p.len() == self.n_individuals,
            evaluated(&self.k, p@),
            sorted_desc(p@),
    {
        let mut p: Vec<Individual> = Vec::with_capacity(self.n_individuals);
        let mut i: usize = 0;
        while i < self.n_individuals
            invariant
                self.wf(),
                i <= self.n_individuals,
                p.len() == i,
                forall|m: int| 0 <= m < i ==> (#[trigger] p[m]).genes.len() == self.n_genes,
            decreases self.n_individuals - i,
        {
            let ind = self.generate_individual(rng);
            p.push(ind);
            i = i + 1;
        }
        update_fitness(&self.k, &mut p);
        p
    }

    /// A new population of exactly `n_individuals` offspring. Selection
    /// weighs each parent by its fitness less the lowest fitness (the shift
    /// is left in `p`); each drawn pair is crossed with probability
    /// `crossover_rate`, and when `n_individuals` is odd the second child of
    /// the last pair is dropped. A population of one is copied as it is.
    pub fn recombination(&self, rng: &mut rand::rngs::StdRng, p: &mut Vec<Individual>) -> (new_p:
        Vec<Individual>)
        requires
            self.wf(),
            old(p).len() == self.n_individuals,
            forall|i: int| 0 <= i < old(p).len() ==> (#[trigger] old(p)[i]).genes.len() == self.n_genes,
        ensures
            new_p.len() == self.n_individuals,
            forall|i: int| 0 <= i < new_p.len() ==> (#[trigger] new_p[i]).genes.len() == self.n_genes,
            exists|m: u64| #[trigger] is_lowest_fitness(old(p)@, m) && shifted_by(old(p)@, final(p)@, m),
            self.n_individuals == 1 ==> new_p[0].genes@ == final(p)[0].genes@,
            self.n_individuals >= 2 ==> forall|k: int|
                0 <= k && 2 * k < self.n_individuals ==> #[trigger] pair_bred(
                    final(p)@,
                    new_p@,
                    k,
                    self.n_genes as int,
                    self.crossover_rate,
                ),
    {
        shift_fitness(p);
        let ghost shifted = p@;
        let n = self.n_individuals;
        let mut new_p: Vec<Individual> = Vec::with_capacity(n);
        if n == 1 {
            new_p.push(p[0].clone());
            return new_p;
        }
        let ghost crossing = self.crossover_rate;
        let ghost n_genes = self.n_genes as int;
        let mut i: usize = 0;
        while i < n
            invariant
                self.wf(),
                n == self.n_individuals == p.len(),
                n >= 2,
                p@ == shifted,
                crossing == self.crossover_rate,
                n_genes == self.n_genes,
                i <= n,
                i % 2 == 0 || i == n,
                new_p.len() == i,
                forall|m: int| 0 <= m < p.len() ==> (#[trigger] p[m]).genes.len() == self.n_genes,
                forall|m: int| 0 <= m < i ==> (#[trigger] new_p[m]).genes.len() == self.n_genes,
                forall|k: int|
                    0 <= k && 2 * k < i ==> #[trigger] pair_bred(p@, new_p@, k, n_genes, crossing),
            decreases n - i,
        {
            let mut selected = roulette_selection(rng, p);
            let ghost (a, b) = choose|a: int, b: int|
                0 <= a < p.len() && 0 <= b < p.len() && a != b && selected[0]@ == p[a]@ && selected[1]@
                    == p[b]@ && (remaining_sum(p@, -1, p.len() as int) > 0 ==> p[a].fitness > 0) && (
                remaining_sum(p@, a, p.len() as int) > 0 ==> p[b].fitness > 0);
            proof {
                assert(p[a].genes.len() == self.n_genes);
                assert(p[b].genes.len() == self.n_genes);
            }
            let r = draw_below(rng, RATE_SCALE as u128);
            if r < self.crossover_rate as u128 {
                single_point_crossover(rng, &mut selected, self.n_genes);
            }
            let ghost sel = selected@;
            let second = selected.pop().unwrap();
            let first = selected.pop().unwrap();
            proof {
                assert(first == sel[0] && second == sel[1]);
                assert(from_parents(p@, a, b, first.genes@, second.genes@, n_genes, crossing));
                assert(offspring_pair(p@, first.genes@, second.genes@, n_genes, crossing));
            }
            let ghost before = new_p@;
            let ghost k0 = i as int / 2;
            new_p.push(first);
            if i + 1 < n {
                new_p.push(second);
                i = i + 2;
            } else {
                i = i + 1;
            }
            proof {
                assert forall|k: int| 0 <= k && 2 * k < i implies #[trigger] pair_bred(
                    p@,
                    new_p@,
                    k,
                    n_genes,
                    crossing,
                ) by {
                    if k < k0 {
                        assert(pair_bred(p@, before, k, n_genes, crossing));
                        assert(new_p@[2 * k] == before[2 * k]);
                        assert(new_p@[2 * k + 1] == before[2 * k + 1]);
                    } else {
                        assert(k == k0);
                        assert(new_p@[2 * k] == first);
                        if 2 * k + 1 < new_p.len() {
                            assert(new_p@[2 * k + 1] == second);
                        } else {
                            assert(offspring_pair(p@, new_p@[2 * k].genes@, second.genes@, n_genes, crossing));
                        }
                    }
                }
            }
        }
        new_p
    }

    /// One generation: recombine, mutate, evaluate the offspring, keep the
    /// elites of `p` and fill the other slots with the best offspring, then
    /// evaluate and sort the merged population. Its size is unchanged, and
    /// the gene vectors of the first `ceil(elitism_rate * n_individuals)`
    /// parents are all still present afterwards, so the best fitness never
    /// drops while there is at least one elite.
    pub fn generation(&self, rng: &mut rand::rngs::StdRng, p: &mut Vec<Individual>)
        requires
            self.wf(),
            old(p).len() == self.n_individuals,
            evaluated(&self.k, old(p)@),
        ensures
            final(p).len() == self.n_individuals,
            evaluated(&self.k, final(p)@),
            sorted_desc(final(p)@),
            forall|j: int|
                0 <= j < spec_n_elites(self.elitism_rate, self.n_individuals) ==> #[trigger] has_genes(
                    final(p)@,
                    old(p)[j].genes@,
                ),
            forall|j: int|
                0 <= j < spec_n_elites(self.elitism_rate, self.n_individuals) ==> final(p)[0].fitness
                    >= (#[trigger] old(p)[j]).fitness,
    {
        let ghost p0 = p@;
        let mut new_p = self.recombination(rng, p);
        let ghost shifted = p@;
        proof {
            let m = choose|m: u64| #[trigger] is_lowest_fitness(p0, m) && shifted_by(p0, shifted, m);
            assert(forall|i: int| 0 <= i < shifted.len() ==> (#[trigger] shifted[i]).genes@ == p0[i].genes@);
        }
        mutation(rng, &mut new_p, self.mutation_rate);
        update_fitness(&self.k, &mut new_p);
        elitism(p, &new_p, self.elitism_rate);
        let ghost merged = p@;
        proof {
            assert(spec_n_elites(self.elitism_rate, self.n_individuals) <= self.n_individuals) by (nonlinear_arith)
                requires
                    self.elitism_rate <= RATE_SCALE,
            ;
            assert forall|i: int| 0 <= i < merged.len() implies (#[trigger] merged[i]).genes.len()
                == self.n_genes by {
                if i >= spec_n_elites(self.elitism_rate, self.n_individuals) {
                    let o = i - spec_n_elites(self.elitism_rate, self.n_individuals);
                    assert(new_p[o].genes.len() == self.n_genes);
                    assert(merged[i]@ == new_p[o]@);
                } else {
                    assert(merged[i] == shifted[i]);
                    assert(p0[i].genes.len() == self.n_genes);
                    assert(shifted[i].genes@ == p0[i].genes@);
                }
            }
        }
        update_fitness(&self.k, p);
        proof {
            assert forall|j: int|
                #![trigger has_genes(p@, p0[j].genes@)]
                #![trigger p0[j]]
                0 <= j < spec_n_elites(self.elitism_rate, self.n_individuals) implies has_genes(
                p@,
                p0[j].genes@,
            ) && p[0].fitness >= p0[j].fitness by {
                assert(merged[j] == shifted[j]);
                assert(has_genes(p@, merged[j].genes@));
                let i = choose|i: int| 0 <= i < p.len() && (#[trigger] p[i]).genes@ == merged[j].genes@;
                assert(p[i].fitness == p0[j].fitness);
                if i > 0 {
                    assert(p[0].fitness >= p[i].fitness);
                }
            }
        }
    }

    /// Runs `n_generations` generations from the population `p` and returns
    /// a copy of the first (fittest) individual of the final population.
    /// With no generation that is `p[0]`; with at least one elite the best
    /// fitness never drops below that of `p[0]`.
    pub fn run_from(&self, rng: &mut rand::rngs::StdRng, p: Vec<Individual>) -> (r: Individual)
        requires
            self.wf(),
            p.len() == self.n_individuals,
            evaluated(&self.k, p@),
            sorted_desc(p@),
        ensures
            r.genes.len() == self.n_genes,
            r.fitness == self.k.value_of(r.genes@),
            self.n_generations == 0 ==> r@ == p[0]@,
            spec_n_elites(self.elitism_rate, self.n_individuals) >= 1 ==> r.fitness >= p[0].fitness,
    {
        let ghost start = p@;
        let mut p = p;
        let mut g: usize = 0;
        while g < self.n_generations
            invariant
                self.wf(),
                g <= self.n_generations,
                p.len() == self.n_individuals,
                evaluated(&self.k, p@),
                sorted_desc(p@),
                g == 0 ==> p@ == start,
                spec_n_elites(self.elitism_rate, self.n_individuals) >= 1 ==> p[0].fitness
                    >= start[0].fitness,
            decreases self.n_generations - g,
        {
            let ghost prev = p@;
            self.generation(rng, &mut p);
            proof {
                if spec_n_elites(self.elitism_rate, self.n_individuals) >= 1 {
                    assert(p[0].fitness >= prev[0].fitness);
                }
            }
            g = g + 1;
        }
        assert(p[0].genes.len() == self.n_genes);
        p[0].clone()
    }

    /// Runs `n_generations` generations from a random population, drawing
    /// from `rng`, and returns a copy of the best individual of the final
    /// population. An invalid configuration is refused before anything is
    /// drawn.
    pub fn run_with(&self, rng: &mut rand::rngs::StdRng) -> (r: Result<Individual, GaError>)
        ensures
            r is Ok <==> self.wf(),
            r is Err ==> r == Err::<Individual, GaError>(GaError::InvalidConfiguration),
            r is Ok ==> r->Ok_0.genes.len() == self.n_genes && r->Ok_0.fitness == self.k.value_of(
                r->Ok_0.genes@,
            ),
    {
        if !self.is_valid() {
            return Err(GaError::InvalidConfiguration);
        }
        let p = self.generate_population(rng);
        Ok(self.run_from(rng, p))
    }

    /// `run_with` on a generator seeded from the operating system.
    pub fn run(&self) -> (r: Result<Individual, GaError>)
        ensures
            r is Ok <==> self.wf(),
            r is Err ==> r == Err::<Individual, GaError>(GaError::InvalidConfiguration),
            r is Ok ==> r->Ok_0.genes.len() == self.n_genes && r->Ok_0.fitness == self.k.value_of(
                r->Ok_0.genes@,
            ),
    {
        let mut rng = fresh_rng();
        self.run_with(&mut rng)
    }
}

} // verus!
