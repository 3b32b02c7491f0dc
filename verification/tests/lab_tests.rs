//! End-to-end tests of the laboratory engine.

use petridish::algo::AlgoConfiguration;
use petridish::algorithms::benchmark_fcts::{BenchmarkAlgo, BenchmarkFct, SphericalFct};
use petridish::algorithms::{get_algo, AlgoAvailable, SpecialData, SpecialQuery};
use petridish::dataset::{DatasetHandler, EmptyDataset};
use petridish::errors::Errcode;
use petridish::fixed::{HALF_SCALE, SCALE};
use petridish::genalgo::Genalgo;
use petridish::lab::{Lab, LabConfig};

fn spherical_lab(npop: usize, dims: u8, seed: u64) -> Lab {
    let mut lab = Lab::new(LabConfig::new(npop, 100_000_000, false));
    lab.set_seed(seed);
    let algo = AlgoAvailable::BenchmarkAlgo(BenchmarkAlgo {
        math_fct: BenchmarkFct::Spherical(SphericalFct { scope: (-10, 10) }),
        fct_dimension: dims,
    });
    lab.register_new_algo(algo).unwrap();
    lab.configure_algo(0, AlgoConfiguration::default()).unwrap();
    lab
}

#[test]
fn test_insufficient_population() {
    // A budget below one hundred is refused before anything is touched.
    let mut lab = spherical_lab(1000, 4, 1);
    lab.config.npop = 50;
    let mut datasets = vec![DatasetHandler::Empty(EmptyDataset::new(1))];
    let r = lab.start(1, &mut datasets);
    assert!(matches!(r, Err(Errcode::InsuffisantPopulation(50, 100))));
    assert!(lab.cells[0].is_empty());
    assert!(!lab.init_done);
}

#[test]
fn test_start_without_algos() {
    let mut lab = Lab::new(LabConfig::default());
    let mut datasets = vec![DatasetHandler::Empty(EmptyDataset::new(1))];
    assert!(matches!(lab.start(1, &mut datasets), Err(Errcode::NotSet(_))));
}

#[test]
fn test_start_without_configuration() {
    let mut lab = Lab::new(LabConfig::default());
    lab.register_new_algo(get_algo("algo_test")).unwrap();
    let mut datasets = vec![DatasetHandler::Empty(EmptyDataset::new(1))];
    assert!(matches!(lab.start(1, &mut datasets), Err(Errcode::NotSet(_))));
}

#[test]
fn test_start_without_output_algo() {
    let mut lab = Lab::new(LabConfig::default());
    lab.register_new_algo(get_algo("algo_test")).unwrap();
    lab.register_new_algo(get_algo("algo_test")).unwrap();
    lab.configure_algo(0, AlgoConfiguration::default()).unwrap();
    let mut datasets = vec![DatasetHandler::Empty(EmptyDataset::new(1))];
    assert!(matches!(lab.start(1, &mut datasets), Err(Errcode::NotSet(_))));
}

#[test]
fn test_configuration_errors() {
    let mut lab = Lab::new(LabConfig::default());
    lab.register_new_algo(get_algo("algo_test")).unwrap();
    // Unknown algo identifier.
    let r = lab.configure_algo(4, AlgoConfiguration::default());
    assert!(matches!(r, Err(Errcode::IdDoesntExist(4))));
    // Unknown method name.
    let mut bad = AlgoConfiguration::default();
    bad.method = "Lamarck".to_string();
    assert!(matches!(
        lab.configure_algo(0, bad),
        Err(Errcode::ValidationError(_))
    ));
    // A map of the wrong size.
    let r = lab.apply_map(vec![AlgoConfiguration::default(), AlgoConfiguration::default()]);
    assert!(matches!(r, Err(Errcode::SizeError(_, 1, 2))));
}

#[test]
fn test_import_best_genome_length_mismatch_is_code_error() {
    // A seed genome of the wrong length surfaces as a CodeError at start.
    let mut lab = Lab::new(LabConfig::default());
    lab.register_new_algo(get_algo("algo_test")).unwrap();
    lab.configure_algo(0, AlgoConfiguration::default()).unwrap();
    lab.import_best_genome(vec![1, 2, 3], Some(0)).unwrap();
    let mut datasets = vec![DatasetHandler::Empty(EmptyDataset::new(1))];
    assert!(matches!(lab.start(1, &mut datasets), Err(Errcode::CodeError(_))));
}

#[test]
fn test_small_run_returns_best_cell() {
    let mut lab = spherical_lab(100, 2, 3);
    let mut datasets = vec![DatasetHandler::Empty(EmptyDataset::new(1))];
    let best = lab.start(2, &mut datasets).unwrap();
    assert_eq!(best.genome.len(), 2);
    for gene in &best.genome {
        assert!(*gene <= SCALE);
    }
}

#[test]
fn test_determinism_under_fixed_seed() {
    // Two runs from identical configuration and seed give identical
    // final best genomes.
    let mut one = spherical_lab(120, 4, 99);
    let mut two = spherical_lab(120, 4, 99);
    let mut ds1 = vec![DatasetHandler::Empty(EmptyDataset::new(1))];
    let mut ds2 = vec![DatasetHandler::Empty(EmptyDataset::new(1))];
    let best1 = one.start(3, &mut ds1).unwrap();
    let best2 = two.start(3, &mut ds2).unwrap();
    assert_eq!(best1.genome, best2.genome);
    assert_eq!(best1.score, best2.score);
}

#[test]
fn test_single_algo_convergence_signal() {
    // One algo, Darwin method, Spherical minimised, 60 genes, population
    // 1000, elite ratio 0.1: the rank-zero score never worsens across 50
    // generations, because the best genome is carried through unchanged.
    // A completed run replays deterministically from the seed, so the
    // best after k generations is read by running k generations afresh.
    let mut lab = spherical_lab(1000, 60, 2024);
    let mut datasets = vec![DatasetHandler::Empty(EmptyDataset::new(1))];
    let mut last: Option<u64> = None;
    for gens in [1usize, 10, 25, 50] {
        let best = lab.start(gens, &mut datasets).unwrap();
        if let Some(prev) = last {
            assert!(best.score <= prev);
        }
        last = Some(best.score);
    }
}

#[test]
fn test_completion_resets_run_state() {
    // Completion returns the laboratory to its configured state: the
    // populations and the method registry are gone, and a second run of
    // the same laboratory replays the first one exactly.
    let mut lab = spherical_lab(120, 4, 77);
    let mut datasets = vec![DatasetHandler::Empty(EmptyDataset::new(1))];
    let first = lab.start(3, &mut datasets).unwrap();
    assert!(!lab.init_done);
    assert!(lab.genalgo_methods.is_empty());
    assert!(lab.cells.iter().all(|row| row.is_empty()));
    let second = lab.start(3, &mut datasets).unwrap();
    assert_eq!(first.genome, second.genome);
    assert_eq!(first.score, second.score);
}

#[test]
fn test_recv_special_data_idempotent() {
    // Two identical side-channel messages leave the same state as one.
    let mut algo = get_algo("benchmark");
    let msg = SpecialData {
        scope: Some((-10, 10)),
        mathfct: Some("spherical".to_string()),
        nb_dimensions: Some(3),
    };
    algo.recv_special_data(&msg).unwrap();
    let after_once = match algo {
        AlgoAvailable::BenchmarkAlgo(b) => b,
        _ => panic!("expected the benchmark algo"),
    };
    algo.recv_special_data(&msg).unwrap();
    let after_twice = match algo {
        AlgoAvailable::BenchmarkAlgo(b) => b,
        _ => panic!("expected the benchmark algo"),
    };
    assert_eq!(after_once.fct_dimension, after_twice.fct_dimension);
    match (after_once.math_fct, after_twice.math_fct) {
        (BenchmarkFct::Spherical(a), BenchmarkFct::Spherical(b)) => {
            assert_eq!(a.scope, b.scope);
        }
        _ => panic!("expected the spherical evaluator twice"),
    }
}

#[test]
fn test_special_data_errors() {
    let mut lab = Lab::new(LabConfig::default());
    lab.register_new_algo(get_algo("benchmark")).unwrap();
    // An unknown evaluator name is rejected through the side channel.
    let msg = SpecialData {
        scope: None,
        mathfct: Some("xinsheyang9".to_string()),
        nb_dimensions: None,
    };
    assert!(matches!(
        lab.recv_special_data(0, &msg),
        Err(Errcode::SpecialDataError(_))
    ));
    // A query without a scope is rejected.
    let q = SpecialQuery::ExpectedOptimum { scope: None };
    assert!(matches!(
        lab.send_special_data(0, &q),
        Err(Errcode::SpecialDataError(_))
    ));
}

#[test]
fn test_expected_optimum_query() {
    let lab = {
        let mut lab = Lab::new(LabConfig::default());
        lab.register_new_algo(get_algo("benchmark")).unwrap();
        lab
    };
    let q = SpecialQuery::ExpectedOptimum { scope: Some((-10, 10)) };
    let genome = lab.send_special_data(0, &q).unwrap();
    assert_eq!(genome.len(), 8);
    for gene in &genome {
        assert_eq!(*gene, HALF_SCALE);
    }
}

#[test]
fn test_genalgo_datasets() {
    let mut g = Genalgo::new(LabConfig::default());
    g.register_dataset("empty".to_string(), DatasetHandler::Empty(EmptyDataset::new(2)));
    assert!(matches!(
        g.remove_dataset("missing".to_string()),
        Err(Errcode::DatasetDoesntExist(_))
    ));
    g.remove_dataset("empty".to_string()).unwrap();
    assert!(matches!(g.export_lab(), Err(Errcode::NotImplemented(_))));
}

#[test]
fn test_genalgo_runs_test_algo() {
    // The test algo never scores its cells, so it runs under the
    // memoryless RandomOpti method.
    let mut g = Genalgo::new(LabConfig::default());
    g.register_dataset("empty".to_string(), DatasetHandler::Empty(EmptyDataset::new(1)));
    g.lab.register_new_algo(get_algo("algo_test")).unwrap();
    let mut cfg = AlgoConfiguration::default();
    cfg.method = "RandomOpti".to_string();
    cfg.method_options = petridish::genalgomethods::GenalgoMethodsConfigurations::NoConfig;
    g.lab.configure_algo(0, cfg).unwrap();
    g.set_output_algorithm(0);
    let best = g.start(2).unwrap();
    assert_eq!(best.genome.len(), 2);
}
