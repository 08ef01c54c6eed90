use knapsack_ga::individual::Individual;
use knapsack_ga::knapsack::Knapsack;
use knapsack_ga::population::{elitism, evaluate, n_elites, sort_by_fitness, update_fitness};
use knapsack_ga::report::total_best_worst;
use knapsack_ga::selection::{remaining_total, roulette_pick, roulette_selection, shift_fitness};
use knapsack_ga::variation::{crossover_at, mutate_genes, mutation, single_point_crossover};
use knapsack_ga::RATE_SCALE;
use rand::rngs::StdRng;
use rand::SeedableRng;

fn ind(genes: &[bool], fitness: u64) -> Individual {
    Individual { genes: genes.to_vec(), fitness }
}

fn with_fitness(fs: &[u64]) -> Vec<Individual> {
    fs.iter()
        .enumerate()
        .map(|(i, f)| ind(&[i % 2 == 0, i % 3 == 0, i % 5 == 0, i >= 4], *f))
        .collect()
}

fn small_knapsack() -> Knapsack {
    Knapsack { weights: vec![2, 3, 4, 5], values: vec![3, 4, 5, 6], capacity: 5, optimum: 7 }
}

#[test]
fn objective_counts_value_of_feasible_selection() {
    let k = small_knapsack();
    assert!(k.is_valid());
    assert_eq!(k.objective(&vec![true, true, false, false]), 7);
    assert_eq!(k.objective(&vec![false, false, false, true]), 6);
    assert_eq!(k.objective(&vec![false, false, false, false]), 0);
}

#[test]
fn objective_is_zero_over_capacity() {
    let k = small_knapsack();
    assert_eq!(k.objective(&vec![false, false, true, true]), 0);
    assert_eq!(k.objective(&vec![true, true, true, true]), 0);
}

#[test]
fn knapsack_validity() {
    let mismatched = Knapsack { weights: vec![1, 2], values: vec![1], capacity: 3, optimum: 1 };
    assert!(!mismatched.is_valid());
    let overflowing =
        Knapsack { weights: vec![1, 2], values: vec![u64::MAX, 1], capacity: 3, optimum: 1 };
    assert!(!overflowing.is_valid());
    let largest = Knapsack { weights: vec![1, 2], values: vec![u64::MAX - 1, 1], capacity: 3, optimum: 1 };
    assert!(largest.is_valid());
    assert_eq!(largest.objective(&vec![true, true]), u64::MAX);
}

#[test]
fn clone_is_deep() {
    let a = ind(&[true, false, true], 9);
    let mut b = a.clone();
    b.genes[0] = false;
    assert_eq!(a.genes, vec![true, false, true]);
    assert_eq!(b.genes, vec![false, false, true]);
    assert_eq!(b.fitness, 9);
}

#[test]
fn remaining_total_leaves_out_skip() {
    let p = with_fitness(&[5, 3, 0, 2]);
    assert_eq!(remaining_total(&p, None), 10);
    assert_eq!(remaining_total(&p, Some(0)), 5);
    assert_eq!(remaining_total(&p, Some(3)), 8);
}

#[test]
fn roulette_pick_walks_cumulative_fitness() {
    let p = with_fitness(&[5, 3, 0, 2]);
    assert_eq!(roulette_pick(&p, None, 0), 0);
    assert_eq!(roulette_pick(&p, None, 4), 0);
    assert_eq!(roulette_pick(&p, None, 5), 1);
    assert_eq!(roulette_pick(&p, None, 7), 1);
    assert_eq!(roulette_pick(&p, None, 8), 3);
    assert_eq!(roulette_pick(&p, None, 9), 3);
}

#[test]
fn roulette_pick_skips_previous_pick() {
    let p = with_fitness(&[5, 3, 0, 2]);
    assert_eq!(roulette_pick(&p, Some(0), 0), 1);
    assert_eq!(roulette_pick(&p, Some(0), 2), 1);
    assert_eq!(roulette_pick(&p, Some(0), 3), 3);
    assert_eq!(roulette_pick(&p, Some(1), 5), 3);
}

#[test]
fn roulette_pick_uniform_when_all_zero() {
    let p = with_fitness(&[0, 0, 0, 0]);
    assert_eq!(roulette_pick(&p, None, 0), 0);
    assert_eq!(roulette_pick(&p, None, 2), 2);
    assert_eq!(roulette_pick(&p, Some(1), 0), 0);
    assert_eq!(roulette_pick(&p, Some(1), 1), 2);
    assert_eq!(roulette_pick(&p, Some(1), 2), 3);
    // Only the skipped one has weight: the rest share the wheel evenly.
    let q = with_fitness(&[0, 4, 0]);
    assert_eq!(roulette_pick(&q, Some(1), 1), 2);
}

#[test]
fn selection_all_zero_fitness_gives_two_distinct() {
    let p = with_fitness(&[0, 0, 0, 0, 0]);
    let mut rng = StdRng::seed_from_u64(11);
    for _ in 0..200 {
        let sel = roulette_selection(&mut rng, &p);
        assert_eq!(sel.len(), 2);
        assert_ne!(sel[0].genes, sel[1].genes);
    }
}

#[test]
fn selection_never_pairs_an_individual_with_itself() {
    let p = with_fitness(&[1000, 1, 1, 0, 0]);
    let mut rng = StdRng::seed_from_u64(3);
    for _ in 0..200 {
        let sel = roulette_selection(&mut rng, &p);
        assert_eq!(sel.len(), 2);
        assert_ne!(sel[0].genes, sel[1].genes);
    }
}

#[test]
fn selection_with_two_candidates_takes_both() {
    let p = with_fitness(&[0, 9]);
    let mut rng = StdRng::seed_from_u64(5);
    for _ in 0..50 {
        let sel = roulette_selection(&mut rng, &p);
        let mut fs = vec![sel[0].fitness, sel[1].fitness];
        fs.sort();
        assert_eq!(fs, vec![0, 9]);
    }
}

#[test]
fn shift_subtracts_lowest_fitness() {
    let mut p = with_fitness(&[10, 7, 4]);
    let genes: Vec<Vec<bool>> = p.iter().map(|i| i.genes.clone()).collect();
    shift_fitness(&mut p);
    let fs: Vec<u64> = p.iter().map(|i| i.fitness).collect();
    assert_eq!(fs, vec![6, 3, 0]);
    let after: Vec<Vec<bool>> = p.iter().map(|i| i.genes.clone()).collect();
    assert_eq!(after, genes);
}

#[test]
fn crossover_at_swaps_prefix() {
    let mut sel = vec![ind(&[true, true, true, true], 1), ind(&[false, false, false, false], 2)];
    crossover_at(&mut sel, 1);
    assert_eq!(sel[0].genes, vec![false, true, true, true]);
    assert_eq!(sel[1].genes, vec![true, false, false, false]);
    assert_eq!(sel[0].fitness, 1);
    assert_eq!(sel[1].fitness, 2);
    crossover_at(&mut sel, 3);
    assert_eq!(sel[0].genes, vec![true, false, false, true]);
    assert_eq!(sel[1].genes, vec![false, true, true, false]);
}

#[test]
fn crossover_with_two_genes_always_cuts_at_one() {
    let mut rng = StdRng::seed_from_u64(17);
    for _ in 0..100 {
        let mut sel = vec![ind(&[true, true], 0), ind(&[false, false], 0)];
        single_point_crossover(&mut rng, &mut sel, 2);
        assert_eq!(sel[0].genes, vec![false, true]);
        assert_eq!(sel[1].genes, vec![true, false]);
    }
}

#[test]
fn crossover_point_stays_inside() {
    let mut rng = StdRng::seed_from_u64(23);
    for _ in 0..200 {
        let mut sel = vec![ind(&[true; 6], 0), ind(&[false; 6], 0)];
        single_point_crossover(&mut rng, &mut sel, 6);
        let c = sel[0].genes.iter().take_while(|g| !**g).count();
        assert!(c >= 1 && c < 6);
        assert!(sel[0].genes[c..].iter().all(|g| *g));
        assert!(sel[1].genes[..c].iter().all(|g| *g));
        assert!(sel[1].genes[c..].iter().all(|g| !*g));
    }
}

#[test]
fn mutate_genes_flips_below_rate() {
    let mut g = vec![true, false, true, false];
    mutate_genes(&mut g, &vec![0, 500_000, 29_999, 30_000], 30_000);
    assert_eq!(g, vec![false, false, false, false]);
}

#[test]
fn mutation_rate_zero_and_full() {
    let mut rng = StdRng::seed_from_u64(1);
    let mut p = with_fitness(&[1, 2, 3]);
    let before: Vec<Vec<bool>> = p.iter().map(|i| i.genes.clone()).collect();
    mutation(&mut rng, &mut p, 0);
    let after: Vec<Vec<bool>> = p.iter().map(|i| i.genes.clone()).collect();
    assert_eq!(after, before);
    mutation(&mut rng, &mut p, RATE_SCALE);
    for (a, b) in p.iter().zip(before.iter()) {
        let flipped: Vec<bool> = b.iter().map(|g| !g).collect();
        assert_eq!(a.genes, flipped);
    }
}

#[test]
fn mutation_frequency_matches_rate() {
    let mut rng = StdRng::seed_from_u64(99);
    let mut p: Vec<Individual> = (0..100).map(|_| ind(&vec![false; 1000], 0)).collect();
    mutation(&mut rng, &mut p, 30_000);
    let flipped: usize = p.iter().map(|i| i.genes.iter().filter(|g| **g).count()).sum();
    let fraction = flipped as f64 / 100_000.0;
    assert!((fraction - 0.03).abs() < 0.005, "fraction {}", fraction);
}

#[test]
fn n_elites_rounds_up() {
    assert_eq!(n_elites(50_000, 20), 1);
    assert_eq!(n_elites(0, 20), 0);
    assert_eq!(n_elites(1, 20), 1);
    assert_eq!(n_elites(250_000, 5), 2);
    assert_eq!(n_elites(RATE_SCALE, 7), 7);
}

#[test]
fn elitism_keeps_elites_and_fills_from_offspring() {
    let mut p = with_fitness(&[9, 8, 7, 6, 5]);
    let new_p = vec![ind(&[true], 100), ind(&[false], 101), ind(&[true], 102), ind(&[false], 103), ind(&[true], 104)];
    let elite_genes = p[0].genes.clone();
    let second_genes = p[1].genes.clone();
    elitism(&mut p, &new_p, 400_000);
    let fs: Vec<u64> = p.iter().map(|i| i.fitness).collect();
    assert_eq!(fs, vec![9, 8, 100, 101, 102]);
    assert_eq!(p[0].genes, elite_genes);
    assert_eq!(p[1].genes, second_genes);
    assert_eq!(p[2].genes, vec![true]);
}

#[test]
fn sort_orders_by_fitness_descending() {
    let mut p = with_fitness(&[3, 9, 1, 9, 4, 0]);
    sort_by_fitness(&mut p);
    let fs: Vec<u64> = p.iter().map(|i| i.fitness).collect();
    assert_eq!(fs, vec![9, 9, 4, 3, 1, 0]);
}

#[test]
fn evaluate_then_sort() {
    let k = small_knapsack();
    let mut p = vec![
        ind(&[false, false, true, true], 50),
        ind(&[true, false, false, false], 0),
        ind(&[true, true, false, false], 0),
        ind(&[false, false, false, true], 0),
    ];
    evaluate(&k, &mut p);
    let fs: Vec<u64> = p.iter().map(|i| i.fitness).collect();
    assert_eq!(fs, vec![0, 3, 7, 6]);
    update_fitness(&k, &mut p);
    let fs: Vec<u64> = p.iter().map(|i| i.fitness).collect();
    assert_eq!(fs, vec![7, 6, 3, 0]);
    assert_eq!(p[0].genes, vec![true, true, false, false]);
}

#[test]
fn summary_of_best_values() {
    assert_eq!(total_best_worst(&vec![3, 7, 5]), (15, 7, 3));
    assert_eq!(total_best_worst(&vec![4]), (4, 4, 4));
    assert_eq!(total_best_worst(&vec![u64::MAX, u64::MAX]), (2 * u64::MAX as u128, u64::MAX, u64::MAX));
}
