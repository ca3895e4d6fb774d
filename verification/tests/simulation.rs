use evosim::eye::{BandEye, Eye};
use evosim::genetics::{GaussianMutation, GeneticAlgorithm, RouletteWheelSelection, UniformCrossover};
use evosim::network::{LayerTopology, Network};
use evosim::sim::Simulation;
use evosim::world::{Animal, Food, World};
use rand::rngs::StdRng;
use rand::SeedableRng;

#[test]
fn fresh_world_has_configured_counts() {
    let mut rng = StdRng::seed_from_u64(21);
    let eye = BandEye::new(1);
    let sim = Simulation::random(&mut rng, &eye);
    assert_eq!(sim.world().animals().len(), 40);
    assert_eq!(sim.world().foods().len(), 60);
    for a in sim.world().animals() {
        assert_eq!(a.satiation, 0);
        assert!(a.rotation >= 0 && a.rotation < evosim::TWO_PI_FX);
        assert_eq!(a.speed, evosim::SPEED_DEFAULT);
    }
}

#[test]
fn world_counts_are_construction_data() {
    let mut rng = StdRng::seed_from_u64(26);
    let eye = BandEye::new(3);
    let world = World::new(&mut rng, &eye, 7, 11);
    assert_eq!(world.animals().len(), 7);
    assert_eq!(world.foods().len(), 11);
    for a in world.animals() {
        assert_eq!(a.satiation, 0);
        assert_eq!(a.speed, evosim::SPEED_DEFAULT);
    }
}

#[test]
fn generation_triggers_exactly_after_length_plus_one_steps() {
    let mut rng = StdRng::seed_from_u64(22);
    let eye = BandEye::new(1);
    let mut sim = Simulation::random(&mut rng, &eye);
    let mut evolutions = 0usize;
    for _ in 0..evosim::GENERATION_LENGTH {
        if sim.step(&mut rng).is_some() {
            evolutions += 1;
        }
    }
    assert_eq!(evolutions, 0);
    assert_eq!(sim.age(), evosim::GENERATION_LENGTH);
    let stats = sim.step(&mut rng);
    assert!(stats.is_some());
    assert_eq!(sim.age(), 0);
    for a in sim.world().animals() {
        assert_eq!(a.satiation, 0);
    }
}

#[test]
fn band_eye_counts_food_per_band() {
    let eye = BandEye::new(4);
    let quarter: u32 = 0x4000_0000;
    let foods = vec![
        Food { x: 0, y: 0 },
        Food { x: 1, y: 7 },
        Food { x: quarter, y: 0 },
        Food { x: 0xC000_0000, y: 0 },
        Food { x: u32::MAX, y: 0 },
    ];
    let v = eye.vision(0, 0, 0, &foods);
    assert_eq!(v.len(), 4);
    let one = 0x1_0000_0000i64;
    assert_eq!(v[0], 2 * one);
    assert_eq!(v[1], one);
    assert_eq!(v[2], 0);
    assert_eq!(v[3], 2 * one);
}

fn still_animal(x: u32, y: u32, rotation: i64, speed: i64) -> Animal<BandEye> {
    // Brain shaped for a one-cell sensor: [1, 2, 2], 2*2 + 3*2 = 10 parameters.
    let topology = vec![
        LayerTopology { neurons: 1 },
        LayerTopology { neurons: 2 },
        LayerTopology { neurons: 2 },
    ];
    let weights = vec![0i64; 10];
    let brain = Network::from_weights(&topology, &weights).unwrap();
    Animal { x, y, rotation, speed, satiation: 0, brain, eye: BandEye::new(1) }
}

fn tiny_sim(animals: Vec<Animal<BandEye>>, foods: Vec<Food>) -> Simulation<BandEye> {
    Simulation {
        world: World { animals, foodstuffs: foods },
        ga: GeneticAlgorithm::new(
            RouletteWheelSelection::new(),
            UniformCrossover::new(),
            GaussianMutation::new(evosim::MUTATION_CHANCE, evosim::MUTATION_COEFF),
        ),
        age: 0,
    }
}

#[test]
fn movement_follows_the_heading() {
    let mut rng = StdRng::seed_from_u64(23);
    let half: u32 = 0x8000_0000;
    let speed = evosim::SPEED_MAX;
    // Heading 0: the agent moves along +x by about `speed`.
    let mut sim = tiny_sim(vec![still_animal(half, half, 0, speed)], vec![]);
    sim.step(&mut rng);
    let a = &sim.world().animals()[0];
    let dx = a.x as i64 - half as i64;
    let dy = a.y as i64 - half as i64;
    assert!(dx > speed * 9 / 10 && dx < speed * 11 / 10, "dx = {}", dx);
    assert!(dy.abs() < speed / 10, "dy = {}", dy);
    // Heading pi/2: the agent moves along +y.
    let quarter_turn = evosim::TWO_PI_FX / 4;
    let mut sim = tiny_sim(vec![still_animal(half, half, quarter_turn, speed)], vec![]);
    sim.step(&mut rng);
    let a = &sim.world().animals()[0];
    let dx = a.x as i64 - half as i64;
    let dy = a.y as i64 - half as i64;
    assert!(dy > speed * 9 / 10 && dy < speed * 11 / 10, "dy = {}", dy);
    assert!(dx.abs() < speed / 10, "dx = {}", dx);
}

#[test]
fn collision_feeds_the_agent_and_relocates_the_food() {
    let mut rng = StdRng::seed_from_u64(24);
    let half: u32 = 0x8000_0000;
    // Food exactly on the agent: eaten on the first tick.
    let foods = vec![Food { x: half, y: half }];
    let mut sim = tiny_sim(vec![still_animal(half, half, 0, evosim::SPEED_MIN)], foods);
    sim.step(&mut rng);
    assert_eq!(sim.world().animals()[0].satiation, 1);
    // A food on the far side of the world is not eaten.
    let foods = vec![Food { x: 0, y: 0 }];
    let mut sim = tiny_sim(vec![still_animal(half, half, 0, evosim::SPEED_MIN)], foods);
    sim.step(&mut rng);
    assert_eq!(sim.world().animals()[0].satiation, 0);
}

#[test]
fn speed_stays_within_bounds() {
    let mut rng = StdRng::seed_from_u64(25);
    let eye = BandEye::new(2);
    let mut sim = Simulation::random(&mut rng, &eye);
    for _ in 0..50 {
        sim.step(&mut rng);
        for a in sim.world().animals() {
            assert!(a.speed >= evosim::SPEED_MIN && a.speed <= evosim::SPEED_MAX);
        }
    }
}
