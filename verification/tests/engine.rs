use evosim::fx::{wrap_coord, FX_ONE};
use evosim::genetics::{
    Chromosome, CrossoverMethod, GaError, GaussianMutation, GeneticAlgorithm, Individual,
    MutationMethod, RouletteWheelSelection, SelectionMethod, UniformCrossover,
};
use evosim::animal_individual::AnimalIndividual;
use evosim::eye::BandEye;
use evosim::network::{LayerTopology, Network, NetworkError};
use evosim::world::Animal;
use rand::rngs::StdRng;
use rand::SeedableRng;

fn topo(sizes: &[usize]) -> Vec<LayerTopology> {
    sizes.iter().map(|&neurons| LayerTopology { neurons }).collect()
}

#[test]
fn round_trip_reproduces_the_network() {
    let mut rng = StdRng::seed_from_u64(7);
    let topology = topo(&[3, 5, 2]);
    let net = Network::random(&mut rng, &topology).unwrap();
    let flat = net.weights();
    let rebuilt = Network::from_weights(&topology, &flat).unwrap();
    assert_eq!(flat, rebuilt.weights());
    let inputs = vec![FX_ONE / 10, FX_ONE / 5, -FX_ONE / 3];
    let out_a = net.propogate(inputs.clone()).unwrap();
    let out_b = rebuilt.propogate(inputs).unwrap();
    assert_eq!(out_a, out_b);
}

#[test]
fn random_network_rejects_short_topology() {
    let mut rng = StdRng::seed_from_u64(1);
    let r = Network::random(&mut rng, &topo(&[4]));
    assert!(matches!(r, Err(NetworkError::InvalidTopology)));
}

#[test]
fn from_weights_classifies_every_length() {
    let topology = topo(&[2, 1]);
    // One neuron with two inputs: three parameters.
    assert!(Network::from_weights(&topology, &vec![1, 2, 3]).is_ok());
    let r = Network::from_weights(&topology, &vec![1, 2]);
    assert!(matches!(r, Err(NetworkError::InsufficientWeights)));
    let r = Network::from_weights(&topology, &vec![1, 2, 3, 4]);
    assert!(matches!(r, Err(NetworkError::ExcessWeights)));
    let r = Network::from_weights(&topo(&[2]), &vec![1, 2, 3]);
    assert!(matches!(r, Err(NetworkError::InvalidTopology)));
}

#[test]
fn propogate_rejects_wrong_input_length() {
    let net = Network::from_weights(&topo(&[2, 1]), &vec![0, 0, 0]).unwrap();
    let r = net.propogate(vec![FX_ONE]);
    assert!(matches!(r, Err(NetworkError::DimensionMismatch)));
}

#[test]
fn zero_neuron_outputs_zero() {
    let net = Network::from_weights(&topo(&[2, 1]), &vec![0, 0, 0]).unwrap();
    for inputs in [
        vec![FX_ONE, FX_ONE],
        vec![-FX_ONE, FX_ONE / 2],
        vec![i64::MAX, i64::MIN],
    ] {
        let out = net.propogate(inputs).unwrap();
        assert_eq!(out, vec![0]);
    }
}

#[test]
fn end_to_end_single_neuron_scenario() {
    // One neuron, weights 0.5 and -0.5, bias 0.1; inputs 1.0 and 1.0.
    // The weighted sum cancels exactly, so the output is exactly the bias.
    let bias = 429496730; // 0.1 in Q32.32
    let half = FX_ONE / 2;
    let net = Network::from_weights(&topo(&[2, 1]), &vec![bias, half, -half]).unwrap();
    let out = net.propogate(vec![FX_ONE, FX_ONE]).unwrap();
    assert_eq!(out, vec![bias]);
}

#[test]
fn toroidal_wrap_at_one_and_below_zero() {
    // Landing exactly at 1.0 wraps to 0.0.
    let half: u32 = 0x8000_0000;
    assert_eq!(wrap_coord(half, half as i64), 0);
    // A step of -0.01 from 0.0 wraps to exactly 0.99.
    let hundredth: i64 = 42949673; // 0.01 in units of 2^-32
    let wrapped = wrap_coord(0, -hundredth);
    assert_eq!(wrapped as i64, 0x1_0000_0000 - hundredth);
    // Within range nothing wraps.
    assert_eq!(wrap_coord(5, 10), 15);
}

#[test]
fn crossover_takes_every_gene_from_a_parent() {
    let mut rng = StdRng::seed_from_u64(3);
    let a = Chromosome::from_genes((0..200).map(|g| g).collect());
    let b = Chromosome::from_genes((0..200).map(|g| g + 1000).collect());
    let child = UniformCrossover::new().crossover(&mut rng, &a, &b).unwrap();
    assert_eq!(child.len(), 200);
    let mut from_a = 0;
    let mut from_b = 0;
    for i in 0..200 {
        let g = child.gene(i);
        assert!(g == a.gene(i) || g == b.gene(i));
        if g == a.gene(i) {
            from_a += 1;
        } else {
            from_b += 1;
        }
    }
    // A fair coin picks both parents often over 200 genes.
    assert!(from_a > 50 && from_b > 50);
}

#[test]
fn crossover_rejects_length_mismatch() {
    let mut rng = StdRng::seed_from_u64(4);
    let a = Chromosome::from_genes(vec![1, 2, 3]);
    let b = Chromosome::from_genes(vec![1, 2]);
    let r = UniformCrossover::new().crossover(&mut rng, &a, &b);
    assert!(matches!(r, Err(GaError::ChromosomeLengthMismatch)));
}

#[test]
fn mutation_with_zero_chance_changes_nothing() {
    let mut rng = StdRng::seed_from_u64(5);
    let genes: Vec<i64> = (0..500).map(|g| g * 17 - 3000).collect();
    let mut child = Chromosome::from_genes(genes.clone());
    GaussianMutation::new(0, FX_ONE).mutate(&mut rng, &mut child);
    assert_eq!(child.into_genes(), genes);
}

#[test]
fn mutation_with_zero_coefficient_changes_nothing() {
    let mut rng = StdRng::seed_from_u64(6);
    let genes: Vec<i64> = (0..500).map(|g| g * 13 + 5).collect();
    let mut child = Chromosome::from_genes(genes.clone());
    let full_chance: u64 = 0x1_0000_0000;
    GaussianMutation::new(full_chance, 0).mutate(&mut rng, &mut child);
    assert_eq!(child.into_genes(), genes);
}

#[test]
fn mutated_fraction_tracks_the_chance() {
    let mut rng = StdRng::seed_from_u64(8);
    let n = 10_000usize;
    let mut child = Chromosome::from_genes(vec![0i64; n]);
    let half_chance: u64 = 0x8000_0000; // 0.5
    GaussianMutation::new(half_chance, FX_ONE).mutate(&mut rng, &mut child);
    let changed = child.into_genes().iter().filter(|&&g| g != 0).count();
    // Expect about n/2; allow a generous statistical margin.
    assert!(changed > 4600 && changed < 5400, "changed = {}", changed);
}

// A bare individual for engine tests: fitness fixed at creation time.
fn individual(fitness: u32, genes: Vec<i64>) -> AnimalIndividual {
    let brain = Network::from_weights(&topo(&[1, 1]), &genes).unwrap();
    let animal: Animal<BandEye> = Animal {
        x: 0,
        y: 0,
        rotation: 0,
        speed: evosim::SPEED_MIN,
        satiation: fitness,
        brain,
        eye: BandEye::new(1),
    };
    AnimalIndividual::from_animal(&animal)
}

#[test]
fn selection_on_empty_population_fails() {
    let mut rng = StdRng::seed_from_u64(9);
    let pop: Vec<AnimalIndividual> = Vec::new();
    let r = RouletteWheelSelection::new().select(&mut rng, &pop);
    assert!(matches!(r, Err(GaError::EmptyPopulation)));
}

#[test]
fn selection_on_singleton_returns_it() {
    let mut rng = StdRng::seed_from_u64(10);
    let pop = vec![individual(5, vec![1, 2])];
    for _ in 0..20 {
        let chosen = RouletteWheelSelection::new().select(&mut rng, &pop).unwrap();
        assert_eq!(chosen.fitness(), 5);
    }
}

#[test]
fn selection_with_all_zero_fitness_still_picks() {
    let mut rng = StdRng::seed_from_u64(11);
    let pop = vec![individual(0, vec![1, 2]), individual(0, vec![3, 4])];
    let chosen = RouletteWheelSelection::new().select(&mut rng, &pop).unwrap();
    assert_eq!(chosen.fitness(), 0);
}

#[test]
fn selection_frequency_tracks_fitness() {
    let mut rng = StdRng::seed_from_u64(12);
    let pop = vec![individual(1, vec![10, 20]), individual(3, vec![30, 40])];
    let mut low = 0usize;
    let mut high = 0usize;
    for _ in 0..20_000 {
        let chosen = RouletteWheelSelection::new().select(&mut rng, &pop).unwrap();
        if chosen.fitness() == 1 {
            low += 1;
        } else {
            high += 1;
        }
    }
    // Expect about 25% / 75%, with a generous margin.
    assert!(low > 4000 && low < 6000, "low = {}", low);
    assert!(high > 14000 && high < 16000, "high = {}", high);
}

#[test]
fn evolve_keeps_population_and_chromosome_sizes() {
    let mut rng = StdRng::seed_from_u64(13);
    let genes: Vec<i64> = vec![7, -7];
    let pop: Vec<_> = (0..9).map(|k| individual(k as u32, genes.clone())).collect();
    let ga = GeneticAlgorithm::new(
        RouletteWheelSelection::new(),
        UniformCrossover::new(),
        GaussianMutation::new(0x0100_0000, FX_ONE / 4),
    );
    let (next, _stats) = ga.evolve(&mut rng, &pop);
    assert_eq!(next.len(), 9);
    for ind in &next {
        assert_eq!(ind.chromosome().len(), 2);
    }
}

#[test]
fn evolve_reports_statistics_of_the_replaced_generation() {
    let mut rng = StdRng::seed_from_u64(14);
    let pop = vec![
        individual(2, vec![1, 1]),
        individual(9, vec![2, 2]),
        individual(4, vec![3, 3]),
    ];
    let ga = GeneticAlgorithm::new(
        RouletteWheelSelection::new(),
        UniformCrossover::new(),
        GaussianMutation::new(0, 0),
    );
    let (_next, stats) = ga.evolve(&mut rng, &pop);
    assert_eq!(stats.min_fitness(), 2);
    assert_eq!(stats.max_fitness(), 9);
    assert_eq!(stats.avg_fitness(), 5);
}

#[test]
fn chromosome_accessors_agree() {
    let c = Chromosome::from_genes(vec![4, 5, 6]);
    assert_eq!(c.len(), 3);
    assert_eq!(c.gene(0), 4);
    assert_eq!(c.gene(2), 6);
    assert_eq!(c.genes().clone(), vec![4, 5, 6]);
    let mut c = c;
    c.set_gene(1, 50);
    assert_eq!(c.into_genes(), vec![4, 50, 6]);
}
