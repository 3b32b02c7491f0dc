//! Tests of the Wheel map builder.

use petridish::algo::{AlgoConfiguration, AlgoPopulation};
use petridish::fixed::SCALE;
use petridish::genalgomethods::GenalgoMethodsConfigurations;
use petridish::labmaps::wheel::WheelFormat;
use petridish::labmaps::{get_random_opti_algoconf, LabMapAssistant};

fn iso(name: &str, genes: Vec<usize>, weight: u64) -> AlgoConfiguration {
    AlgoConfiguration {
        id: name.to_string(),
        method: "Darwin".to_string(),
        method_options: GenalgoMethodsConfigurations::default(
            petridish::genalgomethods::GenalgoMethodsAvailable::Darwin,
        ),
        give: Vec::new(),
        impr_genes: Some(genes),
        population: AlgoPopulation::WeightofTot(weight),
    }
}

#[test]
fn test_wheel_shape_for_three_isolated() {
    // Three isolated objectives: 1 random + 1 final + 3 isolated + 3
    // mixes, eight algos in all.
    let isos = vec![
        iso("a", vec![0, 1], SCALE / 2),
        iso("b", vec![1, 2], SCALE / 2),
        iso("c", vec![2, 3], SCALE / 2),
    ];
    let wheel = WheelFormat::new();
    let map = wheel
        .generate_map(
            &isos,
            &get_random_opti_algoconf(),
            &Vec::new(),
            &[SCALE, SCALE, SCALE],
            "Darwin".to_string(),
        )
        .unwrap();
    assert_eq!(map.len(), 8);
    // Both hubs give to every isolated algo.
    assert_eq!(map[0].give, vec![2, 3, 4]);
    assert_eq!(map[1].give, vec![2, 3, 4]);
    // Isolated algos give to their two adjacent mixes.
    assert_eq!(map[2].give, vec![5, 7]);
    assert_eq!(map[3].give, vec![5, 6]);
    assert_eq!(map[4].give, vec![6, 7]);
    // Mixes give to the aggregator and, from the second on, backwards.
    assert_eq!(map[5].give, vec![1]);
    assert_eq!(map[6].give, vec![1, 5]);
    assert_eq!(map[7].give, vec![1, 6]);
    // Each mix restricts itself to the sorted union of its parents'
    // gene positions.
    assert_eq!(map[5].impr_genes.as_ref().unwrap(), &vec![0, 1, 2]);
    assert_eq!(map[6].impr_genes.as_ref().unwrap(), &vec![1, 2, 3]);
    assert_eq!(map[7].impr_genes.as_ref().unwrap(), &vec![0, 1, 2, 3]);
    // Every non-hub give edge enters a hub or climbs towards it: no
    // cycle avoids the hubs.
    for i in 2..map.len() {
        for &dst in &map[i].give {
            let rank = |n: usize| if n < 5 { 0usize } else { 3 - (n - 5) };
            assert!(dst < 2 || rank(i) < rank(dst));
        }
    }
}

#[test]
fn test_wheel_two_isolated_no_mixes() {
    let isos = vec![iso("a", vec![0], SCALE / 2), iso("b", vec![1], SCALE / 2)];
    let wheel = WheelFormat::new();
    let map = wheel
        .generate_map(
            &isos,
            &get_random_opti_algoconf(),
            &Vec::new(),
            &[SCALE, SCALE, SCALE],
            "Darwin".to_string(),
        )
        .unwrap();
    assert_eq!(map.len(), 4);
    assert_eq!(map[0].give, vec![2, 3]);
    assert_eq!(map[1].give, vec![2, 3]);
    assert_eq!(map[2].give, vec![1]);
    assert_eq!(map[3].give, vec![1]);
}

#[test]
fn test_wheel_unknown_mix_method() {
    let isos = vec![
        iso("a", vec![0], SCALE / 2),
        iso("b", vec![1], SCALE / 2),
        iso("c", vec![2], SCALE / 2),
    ];
    let wheel = WheelFormat::new();
    let r = wheel.generate_map(
        &isos,
        &get_random_opti_algoconf(),
        &Vec::new(),
        &[SCALE, SCALE, SCALE],
        "Lamarck".to_string(),
    );
    assert!(r.is_err());
}

#[test]
fn test_labmap_assistant() {
    let mut assistant = LabMapAssistant::new("WheelFormat".to_string());
    for name in ["one", "two", "three"] {
        assistant
            .add_opti_part(
                name.to_string(),
                vec![0, 1],
                SCALE / 2,
                "Darwin".to_string(),
                GenalgoMethodsConfigurations::default(
                    petridish::genalgomethods::GenalgoMethodsAvailable::Darwin,
                ),
            )
            .unwrap();
    }
    let map = assistant.generate_map("Darwin".to_string()).unwrap();
    assert_eq!(map.len(), 8);
    // An out-of-range priority is refused.
    let r = assistant.add_opti_part(
        "four".to_string(),
        vec![2],
        SCALE + 1,
        "Darwin".to_string(),
        GenalgoMethodsConfigurations::NoConfig,
    );
    assert!(r.is_err());
}
