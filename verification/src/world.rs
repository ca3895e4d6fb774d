//! The world: agents with brains and sensors, and the food they chase.
//!
//! Positions live on a torus: each coordinate is a `u32` counting units
//! of `2^-32` of the world width, so wrapping at the edges is exactly
//! wrapping arithmetic.

use vstd::prelude::*;

use crate::eye::Eye;
use crate::network::{LayerTopology, Network};
use crate::rng::{rand_below, rand_u32};
use crate::{N_ANIMALS, N_FOODS, SPEED_DEFAULT, SPEED_MAX, SPEED_MIN, TWO_PI_FX};

verus! {

use vstd::pervasive::unreached;

/// One food item. Relocated, not destroyed, when consumed.
#[derive(Debug, Clone, Copy, PartialEq, Eq, Structural)]
pub struct Food {
    /// Horizontal coordinate, in units of `2^-32`.
    pub x: u32,
    /// Vertical coordinate, in units of `2^-32`.
    pub y: u32,
}

impl Food {
    /// A food at a uniformly random position.
    pub fn random(rng: &mut rand::rngs::StdRng) -> (r: Food) {
        Food { x: rand_u32(rng), y: rand_u32(rng) }
    }
}

/// The brain shape used for a sensor with `cells` cells: vision in, one
/// hidden layer of twice that width, and the two motor outputs.
pub open spec fn brain_topo(cells: usize) -> Seq<usize> {
    seq![cells, (2 * cells) as usize, 2usize]
}

/// One agent: pose, speed, satiation counter, brain and sensor.
pub struct Animal<E> {
    /// Horizontal coordinate, in units of `2^-32`.
    pub x: u32,
    /// Vertical coordinate, in units of `2^-32`.
    pub y: u32,
    /// Heading angle in Q32.32 radians; accumulates without wrapping.
    pub rotation: i64,
    /// Speed in Q32.32 world units per tick, within the speed bounds.
    pub speed: i64,
    /// Food eaten since the agent was created; its fitness.
    pub satiation: u32,
    /// The network steering the agent.
    pub brain: Network,
    /// The sensor feeding the network.
    pub eye: E,
}

impl<E: Eye> Animal<E> {
    /// A healthy agent: its brain is shaped for its sensor and its speed
    /// is within bounds.
    pub open spec fn wf(&self) -> bool {
        &&& self.brain.wf()
        &&& self.brain.topo() == brain_topo(self.eye.cells_spec())
        &&& SPEED_MIN <= self.speed <= SPEED_MAX
        &&& 1 <= self.eye.cells_spec() <= 4096
    }

    /// A fresh agent: random pose, default speed, zero satiation, a
    /// random brain shaped for the given sensor with every parameter
    /// sampled from `[-1.0, 1.0]`.
    pub fn random(rng: &mut rand::rngs::StdRng, eye: &E) -> (r: Animal<E>)
        ensures
            r.wf(),
            r.satiation == 0,
            r.speed == SPEED_DEFAULT,
            0 <= r.rotation < TWO_PI_FX,
            r.eye.cells_spec() == eye.cells_spec(),
            forall|i: int| 0 <= i < r.brain.encoding().len() ==> crate::network::gene_in_range(
                #[trigger] r.brain.encoding()[i],
            ),
    {
        let own_eye = eye.fresh();
        let cells = own_eye.cells();
        let topology: Vec<LayerTopology> = vec![
            LayerTopology { neurons: cells },
            LayerTopology { neurons: 2 * cells },
            LayerTopology { neurons: 2 },
        ];
        proof {
            assert(crate::network::topo_view(topology@) =~= brain_topo(own_eye.cells_spec()));
        }
        let brain = match Network::random(rng, &topology) {
            Ok(b) => b,
            Err(_) => unreached(),
        };
        let x = rand_u32(rng);
        let y = rand_u32(rng);
        let rotation = rand_below(rng, TWO_PI_FX as u64) as i64;
        Animal {
            x,
            y,
            rotation,
            speed: SPEED_DEFAULT,
            satiation: 0,
            brain,
            eye: own_eye,
        }
    }
}

/// The world: a fixed number of agents and of food items.
pub struct World<E> {
    pub animals: Vec<Animal<E>>,
    pub foodstuffs: Vec<Food>,
}

impl<E: Eye> World<E> {
    /// A healthy world: at least one agent, counts small enough that a
    /// whole generation's total fitness stays representable for the
    /// weighted selection, every agent healthy, and all sensors sharing
    /// one cell count. The counts themselves are construction-time data.
    pub open spec fn wf(&self) -> bool {
        &&& 1 <= self.animals@.len() <= 256
        &&& self.foodstuffs@.len() <= 4096
        &&& forall|i: int| 0 <= i < self.animals@.len() ==> (#[trigger] self.animals@[i]).wf()
        &&& forall|i: int| 0 <= i < self.animals@.len() ==> (#[trigger] self.animals@[i]).eye.cells_spec()
            == self.animals@[0].eye.cells_spec()
    }

    /// A fresh world of the given sizes: `n_animals` random agents, each
    /// with a sensor configured like the given one, and `n_foods` random
    /// foods. The counts stay fixed for the run's lifetime.
    pub fn new(rng: &mut rand::rngs::StdRng, eye: &E, n_animals: usize, n_foods: usize) -> (r:
        World<E>)
        requires
            1 <= n_animals <= 256,
            n_foods <= 4096,
        ensures
            r.wf(),
            r.animals@.len() == n_animals,
            r.foodstuffs@.len() == n_foods,
            forall|i: int| 0 <= i < r.animals@.len() ==> (#[trigger] r.animals@[i]).satiation == 0,
            forall|i: int| 0 <= i < r.animals@.len() ==> (#[trigger] r.animals@[i]).speed
                == SPEED_DEFAULT,
            forall|i: int| 0 <= i < r.animals@.len() ==> 0 <= (#[trigger] r.animals@[i]).rotation
                < TWO_PI_FX,
            forall|i: int| 0 <= i < r.animals@.len() ==> (#[trigger] r.animals@[i]).eye.cells_spec()
                == eye.cells_spec(),
            forall|i: int, g: int|
                0 <= i < r.animals@.len() && 0 <= g < r.animals@[i].brain.encoding().len()
                    ==> crate::network::gene_in_range(
                    #[trigger] r.animals@[i].brain.encoding()[g],
                ),
    {
        let mut animals: Vec<Animal<E>> = Vec::new();
        let mut i: usize = 0;
        while i < n_animals
            invariant
                i <= n_animals,
                animals@.len() == i,
                forall|k: int| 0 <= k < i ==> (#[trigger] animals@[k]).wf(),
                forall|k: int| 0 <= k < i ==> (#[trigger] animals@[k]).eye.cells_spec()
                    == eye.cells_spec(),
                forall|k: int| 0 <= k < i ==> (#[trigger] animals@[k]).satiation == 0,
                forall|k: int| 0 <= k < i ==> (#[trigger] animals@[k]).speed == SPEED_DEFAULT,
                forall|k: int| 0 <= k < i ==> 0 <= (#[trigger] animals@[k]).rotation < TWO_PI_FX,
                forall|k: int, g: int|
                    0 <= k < i && 0 <= g < animals@[k].brain.encoding().len()
                        ==> crate::network::gene_in_range(
                        #[trigger] animals@[k].brain.encoding()[g],
                    ),
            decreases n_animals - i,
        {
            let a = Animal::random(rng, eye);
            animals.push(a);
            i += 1;
        }
        let mut foodstuffs: Vec<Food> = Vec::new();
        let mut j: usize = 0;
        while j < n_foods
            invariant
                j <= n_foods,
                foodstuffs@.len() == j,
            decreases n_foods - j,
        {
            let f = Food::random(rng);
            foodstuffs.push(f);
            j += 1;
        }
        World { animals, foodstuffs }
    }

    /// A fresh world of the conventional sizes: `N_ANIMALS` agents and
    /// `N_FOODS` foods.
    pub fn random(rng: &mut rand::rngs::StdRng, eye: &E) -> (r: World<E>)
        ensures
            r.wf(),
            r.animals@.len() == N_ANIMALS,
            r.foodstuffs@.len() == N_FOODS,
            forall|i: int| 0 <= i < r.animals@.len() ==> (#[trigger] r.animals@[i]).satiation == 0,
            forall|i: int| 0 <= i < r.animals@.len() ==> (#[trigger] r.animals@[i]).speed
                == SPEED_DEFAULT,
            forall|i: int| 0 <= i < r.animals@.len() ==> 0 <= (#[trigger] r.animals@[i]).rotation
                < TWO_PI_FX,
            forall|i: int| 0 <= i < r.animals@.len() ==> (#[trigger] r.animals@[i]).eye.cells_spec()
                == eye.cells_spec(),
            forall|i: int, g: int|
                0 <= i < r.animals@.len() && 0 <= g < r.animals@[i].brain.encoding().len()
                    ==> crate::network::gene_in_range(
                    #[trigger] r.animals@[i].brain.encoding()[g],
                ),
    {
        World::new(rng, eye, N_ANIMALS, N_FOODS)
    }

    /// The agents, in their fixed order.
    pub fn animals(&self) -> (r: &Vec<Animal<E>>)
        ensures
            r == &self.animals,
    {
        &self.animals
    }

    /// The foods, in their fixed order.
    pub fn foods(&self) -> (r: &Vec<Food>)
        ensures
            r == &self.foodstuffs,
    {
        &self.foodstuffs
    }
}

} // verus!
