use rand::SeedableRng;
use rand::rngs::StdRng;
use string_evolution::engine::{Individual, Population};
use string_evolution::levenshtein::levenshtein;

fn chars(s: &str) -> Vec<char> {
    s.chars().collect()
}

fn printable(c: char) -> bool {
    let v = c as u32;
    0x20 <= v && v < 0x7a
}

#[test]
fn construction_yields_configured_population() {
    let mut rng = StdRng::seed_from_u64(1);
    let pop = Population::new(&mut rng, 100, 12, 50, 1, chars("Hello World!"));
    assert_eq!(pop.individuals.len(), 100);
    assert_eq!(pop.generation, 0);
    for ind in &pop.individuals {
        assert_eq!(ind.chromosome.len(), 12);
        assert_eq!(ind.fitness, 0);
        assert!(ind.chromosome.iter().all(|&c| printable(c)));
    }
}

#[test]
fn compute_fitness_scores_and_sorts() {
    let mut rng = StdRng::seed_from_u64(2);
    let target = chars("Hello World!");
    let mut pop = Population::new(&mut rng, 60, 12, 50, 1, target.clone());
    pop.compute_fitness();
    let target_str: String = target.iter().collect();
    for ind in &pop.individuals {
        let s: String = ind.chromosome.iter().collect();
        assert_eq!(ind.fitness, levenshtein(&s, &target_str));
    }
    let best = pop.fittest().fitness;
    for ind in &pop.individuals {
        assert!(best <= ind.fitness);
    }
    for w in pop.individuals.windows(2) {
        assert!(w[0].fitness <= w[1].fitness);
    }
}

#[test]
fn crossover_rate_zero_copies_parents() {
    let mut rng = StdRng::seed_from_u64(3);
    let pop = Population::new(&mut rng, 2, 4, 0, 0, chars("abcd"));
    let parent_a = Individual::new(chars("abcd"));
    let parent_b = Individual::new(chars("wxyz"));
    let (child_a, child_b) = pop.crossover(&mut rng, &parent_a, &parent_b);
    assert_eq!(child_a.chromosome, parent_a.chromosome);
    assert_eq!(child_b.chromosome, parent_b.chromosome);
    assert_eq!(child_a.fitness, 0);
    assert_eq!(child_b.fitness, 0);
}

#[test]
fn crossover_rate_full_swaps_parents() {
    let mut rng = StdRng::seed_from_u64(4);
    let pop = Population::new(&mut rng, 2, 4, 100, 0, chars("abcd"));
    let parent_a = Individual::new(chars("abcd"));
    let parent_b = Individual::new(chars("wxyz"));
    let (child_a, child_b) = pop.crossover(&mut rng, &parent_a, &parent_b);
    assert_eq!(child_a.chromosome, parent_b.chromosome);
    assert_eq!(child_b.chromosome, parent_a.chromosome);
}

#[test]
fn crossover_preserves_length_and_mixes_genes() {
    let mut rng = StdRng::seed_from_u64(5);
    let pop = Population::new(&mut rng, 2, 6, 50, 0, chars("aaaaaa"));
    let parent_a = Individual::new(chars("aaaaaa"));
    let parent_b = Individual::new(chars("zzzzzz"));
    let (child_a, child_b) = pop.crossover(&mut rng, &parent_a, &parent_b);
    assert_eq!(child_a.chromosome.len(), 6);
    assert_eq!(child_b.chromosome.len(), 6);
    for k in 0..6 {
        let pair = (child_a.chromosome[k], child_b.chromosome[k]);
        assert!(pair == ('a', 'z') || pair == ('z', 'a'));
    }
}

#[test]
fn mutate_probability_zero_is_identity() {
    let mut rng = StdRng::seed_from_u64(6);
    let mut ind = Individual::new(chars("Hello World!"));
    let before = ind.chromosome.clone();
    ind.mutate(&mut rng, 0);
    assert_eq!(ind.chromosome, before);
}

#[test]
fn mutate_probability_full_randomizes_every_gene() {
    let mut rng = StdRng::seed_from_u64(7);
    let original: Vec<char> = (0..100).map(|_| 'Q').collect();
    let mut ind = Individual::new(original.clone());
    ind.mutate(&mut rng, 100);
    assert_eq!(ind.chromosome.len(), 100);
    assert!(ind.chromosome.iter().all(|&c| printable(c)));
    // Each replacement may coincide with the old gene by chance, but almost
    // all positions must differ.
    let differing = ind
        .chromosome
        .iter()
        .zip(original.iter())
        .filter(|(a, b)| a != b)
        .count();
    assert!(differing >= 90);
}

#[test]
fn breed_restores_size_and_counts_generation() {
    let mut rng = StdRng::seed_from_u64(8);
    let mut pop = Population::new(&mut rng, 50, 5, 50, 2, chars("abcde"));
    pop.compute_fitness();
    for expected in 1..=5 {
        pop.breed(&mut rng);
        assert_eq!(pop.individuals.len(), 50);
        assert_eq!(pop.generation, expected);
        for ind in &pop.individuals {
            assert_eq!(ind.chromosome.len(), 5);
        }
        for w in pop.individuals.windows(2) {
            assert!(w[0].fitness <= w[1].fitness);
        }
    }
}

#[test]
fn breed_smallest_population() {
    // With two members the truncation keeps a single survivor, no pair can
    // be formed, and the whole next generation is refilled at random.
    let mut rng = StdRng::seed_from_u64(10);
    let mut pop = Population::new(&mut rng, 2, 3, 50, 50, chars("abc"));
    pop.compute_fitness();
    pop.breed(&mut rng);
    assert_eq!(pop.individuals.len(), 2);
    assert_eq!(pop.generation, 1);
    for ind in &pop.individuals {
        assert_eq!(ind.chromosome.len(), 3);
        assert!(ind.chromosome.iter().all(|&c| printable(c)));
    }
}

#[test]
fn evolution_reaches_the_target() {
    let mut rng = StdRng::seed_from_u64(9);
    let target = chars("AB");
    let mut pop = Population::new(&mut rng, 50, 2, 50, 5, target.clone());
    pop.compute_fitness();
    let mut generations: u32 = 0;
    while pop.fittest().fitness != 0 {
        assert!(generations < 100_000, "did not converge");
        pop.breed(&mut rng);
        generations += 1;
    }
    assert_eq!(pop.fittest().chromosome, target);
    assert_eq!(pop.fittest().fitness, 0);
}
