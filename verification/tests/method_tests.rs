//! Tests of the variation methods: random genomes, mutations, the
//! population partition, and the generation contracts.

use petridish::algorithms::get_algo;
use petridish::cell::{random_genome, CellData};
use petridish::fixed::SCALE;
use petridish::genalgomethods::darwin_method::DarwinMethod;
use petridish::rng::LabRng;

#[test]
fn test_random_genome_generation() {
    let mut rng = LabRng::from_seed(42);
    let algo = get_algo("algo_test");
    let glen = algo.genome_length();
    let genome_a = random_genome(&mut rng, glen);
    let genome_b = random_genome(&mut rng, glen);
    assert_eq!(genome_a.len(), glen);
    assert_eq!(genome_b.len(), genome_a.len());
    println!("{:?}", genome_a);
    println!("{:?}", genome_b);
    for i in 0..genome_a.len() {
        assert_ne!(genome_a[i], genome_b[i]);
    }
}

#[test]
fn test_mutation_genome() {
    let mut a = DarwinMethod::new(7);
    let algo = get_algo("algo_test");
    let glen = algo.genome_length();
    let genome_a = random_genome(&mut a.rng, glen);

    let mut success = false;
    for _ntry in 0..1000 {
        let genome_b = {
            let mut tmp = genome_a.clone();
            // a rate of 0.10
            a.mutate_genome(&mut tmp, 100_000_000);
            tmp
        };

        assert_eq!(genome_a.len(), glen);
        for i in 0..genome_a.len() {
            success |= genome_a[i] != genome_b[i];
        }
        if success {
            break;
        }
    }
    assert!(success);
}

#[test]
fn test_mutation_genome_direct() {
    let mut a = DarwinMethod::new(11);
    let algo = get_algo("algo_test");
    let glen = algo.genome_length();
    let genome_a = random_genome(&mut a.rng, glen);

    println!("{:?}", genome_a);
    for _ntry in 0..10 {
        let genome_b = {
            let mut tmp = genome_a.clone();
            // a rate of 0.0002
            a.mutate_genome_direct(&mut tmp, 200_000);
            tmp
        };

        assert_eq!(genome_a.len(), glen);
        println!("{:?}", genome_b);
        for i in 0..genome_a.len() {
            assert_ne!(genome_a[i], genome_b[i]);
        }
    }
}

#[test]
fn test_genome_domain() {
    // Every emitted gene lies in [0, 1), whichever operator produced it.
    let mut rng = LabRng::from_seed(5);
    let g = random_genome(&mut rng, 64);
    for gene in &g {
        assert!(*gene < SCALE);
    }
    let mut method = DarwinMethod::new(5);
    let mut mutated = g.clone();
    method.mutate_genome_direct(&mut mutated, 800_000_000);
    for gene in &mutated {
        assert!(*gene < SCALE);
    }
}

#[test]
fn test_optimisation_ratio_parts_sizes() {
    // The six buckets always add up to the population they split.
    let method = DarwinMethod::new(0);
    for (nelites, ratio, pop) in [
        (1usize, 150_000_000u64, 0usize),
        (2, 150_000_000, 998),
        (5, 850_000_000, 997),
        (10, 500_000_000, 123),
        (3, 333_333_333, 17),
    ] {
        let parts = method.compute_population_parts_sizes(nelites, ratio, pop);
        assert_eq!(parts.len(), 6);
        assert_eq!(parts[0], nelites - 1);
        let total: usize = parts.iter().sum();
        assert_eq!(total, pop);
    }
}

fn cell(genes: Vec<u64>, score: u64) -> CellData {
    CellData { genome: genes, score, version: 1 }
}

#[test]
fn test_reset_returns_method_to_fresh() {
    // A reset clears the whole per-run memory: the stall counter, the
    // last best genome and the running best-genome mean; a second reset
    // changes nothing more.
    let mut method = DarwinMethod::new(13);
    let mut cells = Vec::new();
    for i in 0..8u64 {
        cells.push(cell(vec![(i * 97_000_000) % SCALE, (i * 53_000_000) % SCALE], 5_000_000 + i));
    }
    let elites: Vec<CellData> = (0..2).map(|i: usize| cells[i].clone_cell()).collect();
    let mut genomes = Vec::new();
    method.process_results(&elites, &cells, 2, &mut genomes).unwrap();
    assert!(!method.last_best_cell.is_empty());
    method.reset();
    assert_eq!(method.epoch_last_new_best, 0);
    assert!(method.last_best_cell.is_empty());
    assert_eq!(method.bestcell_avg.sumweights, 0);
    method.reset();
    assert_eq!(method.epoch_last_new_best, 0);
    assert!(method.last_best_cell.is_empty());
    assert_eq!(method.bestcell_avg.sumweights, 0);
}

#[test]
fn test_init_population_counts() {
    // Emitted genome counts: exactly pop_size, led by the best genome.
    let mut method = DarwinMethod::new(3);
    let mut out = Vec::new();
    let best = vec![100u64, 200u64];
    method
        .init_population(&best, 2, 40, 4, &mut out)
        .unwrap();
    assert_eq!(out.len(), 40);
    assert_eq!(out[0], vec![100u64, 200u64]);

    // An empty best genome gives a fully random population.
    let mut out2 = Vec::new();
    method.init_population(&Vec::new(), 2, 25, 4, &mut out2).unwrap();
    assert_eq!(out2.len(), 25);

    // A best genome of the wrong length is refused.
    let mut out3 = Vec::new();
    let bad = vec![1u64, 2, 3];
    assert!(method.init_population(&bad, 2, 25, 4, &mut out3).is_err());
    assert_eq!(out3.len(), 0);
}

#[test]
fn test_process_results_length_conservation() {
    // One genome per current cell, whatever the bucket arithmetic does.
    let mut method = DarwinMethod::new(9);
    let mut cells = Vec::new();
    for i in 0..30u64 {
        cells.push(cell(vec![(i * 31_000_000) % SCALE, (i * 17_000_000) % SCALE], 10_000_000 + i));
    }
    let elites: Vec<CellData> = (0..3).map(|i: usize| cells[i].clone_cell()).collect();
    let mut genomes = Vec::new();
    method.process_results(&elites, &cells, 2, &mut genomes).unwrap();
    assert_eq!(genomes.len(), cells.len());
    // The rank-zero elite is carried through unchanged.
    assert_eq!(genomes[0], elites[0].genome);
    // Every emitted gene stays in the unit interval.
    for g in &genomes {
        assert_eq!(g.len(), 2);
        for gene in g {
            assert!(*gene <= SCALE);
        }
    }
}
