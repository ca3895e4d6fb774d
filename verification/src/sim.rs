//! The simulation loop: every tick feeds the agents near food, lets each
//! brain steer its agent, moves the agents over the torus, and, once the
//! age counter passes the generation length, replaces the whole
//! population by an evolved one.

use vstd::prelude::*;

use crate::animal_individual::AnimalIndividual;
use crate::eye::Eye;
use crate::fx::{
    abs_i, fx_add, fx_clamp, fx_clamp_spec, fx_mul, fx_mul_spec, sat64, wrap_coord, wrap_spec,
    FX_ONE,
};
use crate::genetics::{
    lemma_sum_fitness_bound, max_fitness_of, min_fitness_of, offspring_of, sum_fitness,
    GaussianMutation, GeneticAlgorithm, Individual, RouletteWheelSelection, Statistics,
    UniformCrossover,
};
use crate::network::lemma_encoding_len;
use crate::trig::{fx_sin_cos, sin_cos_q16};
use crate::world::{brain_topo, Animal, Food, World};
use crate::{
    COLLISION_RADIUS, GENERATION_LENGTH, MUTATION_CHANCE, MUTATION_COEFF, ROTATION_ACCEL,
    SPEED_ACCEL, SPEED_DEFAULT, SPEED_MAX, SPEED_MIN, TWO_PI_FX,
};

verus! {

/// The squared Euclidean distance between two points of the torus's
/// fundamental square, without wrapping (as the collision rule uses it).
pub open spec fn dist2(ax: u32, ay: u32, px: u32, py: u32) -> int {
    abs_i(ax - px) * abs_i(ax - px) + abs_i(ay - py) * abs_i(ay - py)
}

/// Whether an agent at `(ax, ay)` eats a food at `(px, py)`: their
/// distance is at most the collision radius.
pub open spec fn collides_spec(ax: u32, ay: u32, px: u32, py: u32) -> bool {
    dist2(ax, ay, px, py) <= (COLLISION_RADIUS as int) * (COLLISION_RADIUS as int)
}

fn collides(ax: u32, ay: u32, px: u32, py: u32) -> (r: bool)
    ensures
        r == collides_spec(ax, ay, px, py),
{
    let dx: u64 = if ax >= px {
        (ax - px) as u64
    } else {
        (px - ax) as u64
    };
    let dy: u64 = if ay >= py {
        (ay - py) as u64
    } else {
        (py - ay) as u64
    };
    proof {
        assert((dx as int) * (dx as int) + (dy as int) * (dy as int)
            < 0x1_0000_0000_0000_0000_0000_0000_0000_0000) by (nonlinear_arith)
            requires
                dx < 0x1_0000_0000u64,
                dy < 0x1_0000_0000u64,
        ;
    }
    let d2: u128 = (dx as u128) * (dx as u128) + (dy as u128) * (dy as u128);
    proof {
        assert((COLLISION_RADIUS as int) * (COLLISION_RADIUS as int)
            < 0x1_0000_0000_0000_0000_0000_0000_0000_0000) by (nonlinear_arith)
            requires
                (COLLISION_RADIUS as int) < 0x1_0000_0000,
        ;
    }
    d2 <= (COLLISION_RADIUS as u128) * (COLLISION_RADIUS as u128)
}

/// How many of the foods an agent at `(ax, ay)` is close enough to eat.
pub open spec fn eaten_count(ax: u32, ay: u32, foods: Seq<Food>) -> int
    decreases foods.len(),
{
    if foods.len() == 0 {
        0
    } else {
        eaten_count(ax, ay, foods.drop_last()) + if collides_spec(
            ax,
            ay,
            foods.last().x,
            foods.last().y,
        ) {
            1int
        } else {
            0int
        }
    }
}

proof fn lemma_eaten_count_le(ax: u32, ay: u32, foods: Seq<Food>)
    ensures
        0 <= eaten_count(ax, ay, foods) <= foods.len(),
    decreases foods.len(),
{
    if foods.len() > 0 {
        lemma_eaten_count_le(ax, ay, foods.drop_last());
    }
}

/// One agent's pass over the food collection: every food out of its
/// reach stays put; an eaten food is relocated to a fresh random spot,
/// about which nothing more can be said.
pub open spec fn reloc_rel(ax: u32, ay: u32, before: Seq<Food>, after: Seq<Food>) -> bool {
    &&& after.len() == before.len()
    &&& forall|j: int|
        0 <= j < before.len() && !collides_spec(ax, ay, (#[trigger] before[j]).x, before[j].y)
            ==> after[j] == before[j]
}

/// The collision phase leaves everything of an agent alone but its
/// satiation.
pub open spec fn same_but_satiation<E>(a: Animal<E>, b: Animal<E>) -> bool {
    b.x == a.x && b.y == a.y && b.rotation == a.rotation && b.speed == a.speed && b.brain
        == a.brain && b.eye == a.eye
}

/// The brain phase leaves everything of an agent alone but its speed and
/// rotation.
pub open spec fn same_but_motion<E>(a: Animal<E>, b: Animal<E>) -> bool {
    b.x == a.x && b.y == a.y && b.satiation == a.satiation && b.brain == a.brain && b.eye == a.eye
}

/// The movement phase leaves everything of an agent alone but its
/// position.
pub open spec fn same_but_position<E>(a: Animal<E>, b: Animal<E>) -> bool {
    b.rotation == a.rotation && b.speed == a.speed && b.satiation == a.satiation && b.brain
        == a.brain && b.eye == a.eye
}

/// The whole collision phase. The agents scan the foods in their fixed
/// order, one agent after the other; `chain[i]` is the food collection
/// as agent `i` finds it. Each agent's satiation rises by exactly the
/// number of foods within the collision radius of it at that moment, and
/// exactly those foods are relocated before the next agent looks.
pub open spec fn collisions_chain_rel<E>(
    before: Seq<Animal<E>>,
    after: Seq<Animal<E>>,
    chain: Seq<Seq<Food>>,
) -> bool {
    &&& after.len() == before.len()
    &&& chain.len() == before.len() + 1
    &&& forall|i: int|
        0 <= i < before.len() ==> same_but_satiation(before[i], #[trigger] after[i])
            && after[i].satiation as int == before[i].satiation as int + eaten_count(
            before[i].x,
            before[i].y,
            chain[i],
        ) && reloc_rel(before[i].x, before[i].y, chain[i], chain[i + 1])
}

/// What the brain phase does to one agent: its own sensor's vision of
/// the foods is propagated through its brain, and the two outputs,
/// clamped to the acceleration bounds, move the speed (clamped into its
/// range) and the rotation.
pub open spec fn steer_rel<E: Eye>(a: Animal<E>, b: Animal<E>, foods: Seq<Food>) -> bool {
    let response = a.brain.out_spec(a.eye.vision_spec(a.x, a.y, a.rotation, foods));
    &&& same_but_motion(a, b)
    &&& b.speed as int == fx_clamp_spec(
        sat64(
            a.speed + fx_clamp_spec(response[0] as int, -SPEED_ACCEL as int, SPEED_ACCEL as int),
        ),
        SPEED_MIN as int,
        SPEED_MAX as int,
    )
    &&& b.rotation as int == sat64(
        a.rotation + fx_clamp_spec(
            response[1] as int,
            -ROTATION_ACCEL as int,
            ROTATION_ACCEL as int,
        ),
    )
}

/// The whole brain phase: every agent steered by its own brain's view of
/// the same food collection.
pub open spec fn brains_rel<E: Eye>(
    before: Seq<Animal<E>>,
    after: Seq<Animal<E>>,
    foods: Seq<Food>,
) -> bool {
    &&& after.len() == before.len()
    &&& forall|i: int| 0 <= i < before.len() ==> steer_rel(before[i], #[trigger] after[i], foods)
}

/// The heading angle in Q16.16, truncated toward zero from the Q32.32
/// rotation.
pub open spec fn heading_q16(rotation: i64) -> int {
    if rotation >= 0 {
        (rotation as int) / 65536
    } else {
        -((-(rotation as int)) / 65536)
    }
}

/// The horizontal displacement of one tick: speed times the cosine of
/// the heading, kept below one world width.
pub open spec fn step_dx(speed: i64, rotation: i64) -> int {
    fx_clamp_spec(
        fx_mul_spec(speed as int, (sin_cos_q16(heading_q16(rotation) as i32).1 as int) * 65536),
        -(FX_ONE - 1) as int,
        (FX_ONE - 1) as int,
    )
}

/// The vertical displacement of one tick: speed times the sine of the
/// heading, kept below one world width.
pub open spec fn step_dy(speed: i64, rotation: i64) -> int {
    fx_clamp_spec(
        fx_mul_spec(speed as int, (sin_cos_q16(heading_q16(rotation) as i32).0 as int) * 65536),
        -(FX_ONE - 1) as int,
        (FX_ONE - 1) as int,
    )
}

/// What the movement phase does to one agent: the position advances by
/// the heading displacement and wraps over the torus.
pub open spec fn move_rel<E: Eye>(a: Animal<E>, b: Animal<E>) -> bool {
    &&& same_but_position(a, b)
    &&& b.x as int == wrap_spec(a.x, step_dx(a.speed, a.rotation))
    &&& b.y as int == wrap_spec(a.y, step_dy(a.speed, a.rotation))
}

/// The whole movement phase: every agent moved along its heading.
pub open spec fn movements_rel<E: Eye>(before: Seq<Animal<E>>, after: Seq<Animal<E>>) -> bool {
    &&& after.len() == before.len()
    &&& forall|i: int| 0 <= i < before.len() ==> move_rel(before[i], #[trigger] after[i])
}

/// The rotation magnitude an agent can have accumulated at a given age.
pub open spec fn rotation_cap(age: u32) -> int {
    TWO_PI_FX + (age as int) * (ROTATION_ACCEL as int)
}

/// The genetic algorithm's view of a population of agents: fitness is
/// satiation, the chromosome is the brain's flattened weights.
pub open spec fn adapts<E: Eye>(animals: Seq<Animal<E>>, inds: Seq<AnimalIndividual>) -> bool {
    &&& inds.len() == animals.len()
    &&& forall|i: int|
        0 <= i < animals.len() ==> (#[trigger] inds[i]).fitness_spec() == animals[i].satiation
            && inds[i].chromosome_spec() == animals[i].brain.encoding()
}

/// The engine type configured into the simulation.
pub type SimEngine = GeneticAlgorithm<RouletteWheelSelection, UniformCrossover, GaussianMutation>;

/// What one evolution does: the old agents are projected onto
/// individuals, the statistics describe exactly that replaced
/// generation, and every new agent is reset (zero satiation, default
/// speed, fresh rotation) around a brain whose genes are the offspring
/// of two members of the replaced generation under the engine's
/// crossover and mutation strategies.
pub open spec fn evolution_rel<E: Eye>(
    ga: SimEngine,
    before: Seq<Animal<E>>,
    after: Seq<Animal<E>>,
    stats: Statistics,
) -> bool {
    &&& after.len() == before.len()
    &&& exists|inds: Seq<AnimalIndividual>|
        #[trigger] adapts(before, inds) && stats.min_spec() == min_fitness_of(inds)
            && stats.max_spec() == max_fitness_of(inds) && stats.avg_spec() == sum_fitness(inds) / (
        inds.len() as int) && forall|i: int|
            0 <= i < after.len() ==> offspring_of(
                ga.crossover_spec(),
                ga.mutation_spec(),
                inds,
                (#[trigger] after[i]).brain.encoding(),
            )
    &&& forall|i: int|
        0 <= i < after.len() ==> (#[trigger] after[i]).satiation == 0 && after[i].speed
            == SPEED_DEFAULT && 0 <= after[i].rotation < TWO_PI_FX
}

/// The simulation: a world, the configured genetic algorithm, and the
/// tick counter of the running generation.
pub struct Simulation<E> {
    pub world: World<E>,
    pub ga: SimEngine,
    pub age: u32,
}

impl<E: Eye> Simulation<E> {
    /// A healthy simulation: the world is healthy, the age counter never
    /// passes the generation length, and satiation and rotation are
    /// bounded by what the elapsed ticks allow.
    pub open spec fn wf(&self) -> bool {
        &&& self.world.wf()
        &&& self.age <= GENERATION_LENGTH
        &&& forall|i: int|
            0 <= i < self.world.animals@.len()
                ==> (#[trigger] self.world.animals@[i]).satiation as int <= (self.age as int) * (
            self.world.foodstuffs@.len() as int)
        &&& forall|i: int|
            0 <= i < self.world.animals@.len() ==> abs_i(
                (#[trigger] self.world.animals@[i]).rotation as int,
            ) <= rotation_cap(self.age)
    }

    /// A fresh simulation: a random world of the conventional sizes
    /// (`N_ANIMALS` agents, `N_FOODS` foods), whose sensors are
    /// configured like the given one, and the shipped strategy set:
    /// roulette selection, uniform crossover, and the configured
    /// mutation chance and coefficient.
    pub fn random(rng: &mut rand::rngs::StdRng, eye: &E) -> (r: Simulation<E>)
        ensures
            r.wf(),
            r.age == 0,
            r.world.animals@.len() == crate::N_ANIMALS,
            r.world.foodstuffs@.len() == crate::N_FOODS,
            forall|i: int| 0 <= i < r.world.animals@.len() ==> (
            #[trigger] r.world.animals@[i]).satiation == 0,
            forall|i: int| 0 <= i < r.world.animals@.len() ==> (
            #[trigger] r.world.animals@[i]).speed == SPEED_DEFAULT,
            forall|i: int| 0 <= i < r.world.animals@.len() ==> 0 <= (
            #[trigger] r.world.animals@[i]).rotation < TWO_PI_FX,
            forall|i: int| 0 <= i < r.world.animals@.len() ==> (
            #[trigger] r.world.animals@[i]).eye.cells_spec() == eye.cells_spec(),
            forall|i: int, g: int|
                0 <= i < r.world.animals@.len() && 0 <= g
                    < r.world.animals@[i].brain.encoding().len()
                    ==> crate::network::gene_in_range(
                    #[trigger] r.world.animals@[i].brain.encoding()[g],
                ),
            r.ga.selection_spec() == RouletteWheelSelection,
            r.ga.crossover_spec() == UniformCrossover,
            r.ga.mutation_spec().chance_spec() == MUTATION_CHANCE,
            r.ga.mutation_spec().coeff_spec() == MUTATION_COEFF,
    {
        let world = World::random(rng, eye);
        let ga = GeneticAlgorithm::new(
            RouletteWheelSelection::new(),
            UniformCrossover::new(),
            GaussianMutation::new(MUTATION_CHANCE, MUTATION_COEFF),
        );
        Simulation { world, ga, age: 0 }
    }

    /// The current world, for a renderer or reporter.
    pub fn world(&self) -> (r: &World<E>)
        ensures
            r == &self.world,
    {
        &self.world
    }

    /// Ticks since the last evolution.
    pub fn age(&self) -> (r: u32)
        ensures
            r == self.age,
    {
        self.age
    }

    fn process_collisions(&mut self, rng: &mut rand::rngs::StdRng)
        requires
            old(self).world.wf(),
            forall|i: int|
                0 <= i < old(self).world.animals@.len()
                    ==> (#[trigger] old(self).world.animals@[i]).satiation as int <= (
                GENERATION_LENGTH as int) * (old(self).world.foodstuffs@.len() as int),
        ensures
            final(self).world.wf(),
            final(self).age == old(self).age,
            final(self).ga == old(self).ga,
            final(self).world.animals@.len() == old(self).world.animals@.len(),
            final(self).world.foodstuffs@.len() == old(self).world.foodstuffs@.len(),
            forall|i: int|
                0 <= i < old(self).world.animals@.len() ==> same_but_satiation(
                    old(self).world.animals@[i],
                    #[trigger] final(self).world.animals@[i],
                ) && old(self).world.animals@[i].satiation
                    <= final(self).world.animals@[i].satiation
                    && final(self).world.animals@[i].satiation
                    <= old(self).world.animals@[i].satiation + old(self).world.foodstuffs@.len(),
            exists|chain: Seq<Seq<Food>>|
                #[trigger] collisions_chain_rel(
                    old(self).world.animals@,
                    final(self).world.animals@,
                    chain,
                ) && chain[0] == old(self).world.foodstuffs@ && chain.last()
                    == final(self).world.foodstuffs@,
    {
        let na = self.world.animals.len();
        let nf = self.world.foodstuffs.len();
        let ghost animals0 = self.world.animals@;
        let ghost foods0 = self.world.foodstuffs@;
        let ghost mut chain: Seq<Seq<Food>> = seq![foods0];
        let mut a_idx: usize = 0;
        while a_idx < na
            invariant
                old(self).world.wf(),
                na == animals0.len(),
                nf == foods0.len(),
                animals0 == old(self).world.animals@,
                foods0 == old(self).world.foodstuffs@,
                self.world.animals@.len() == na,
                self.world.foodstuffs@.len() == nf,
                self.age == old(self).age,
                self.ga == old(self).ga,
                a_idx <= na,
                chain.len() == a_idx + 1,
                chain[0] == foods0,
                chain.last() == self.world.foodstuffs@,
                forall|i: int| 0 <= i < na ==> (#[trigger] animals0[i]).satiation as int <= (
                GENERATION_LENGTH as int) * (nf as int),
                forall|i: int| 0 <= i < na ==> same_but_satiation(
                    animals0[i],
                    #[trigger] self.world.animals@[i],
                ),
                forall|i: int| 0 <= i < na ==> animals0[i].satiation
                    <= (#[trigger] self.world.animals@[i]).satiation <= animals0[i].satiation + nf,
                forall|i: int| a_idx <= i < na ==> (#[trigger] self.world.animals@[i]).satiation
                    == animals0[i].satiation,
                forall|i: int| 0 <= i < a_idx ==> (#[trigger] self.world.animals@[i]).satiation as int
                    == animals0[i].satiation as int + eaten_count(
                    animals0[i].x,
                    animals0[i].y,
                    chain[i],
                ),
                forall|i: int| 0 <= i < a_idx ==> reloc_rel(
                    animals0[i].x,
                    animals0[i].y,
                    #[trigger] chain[i],
                    chain[i + 1],
                ),
            decreases na - a_idx,
        {
            let ax = self.world.animals[a_idx].x;
            let ay = self.world.animals[a_idx].y;
            let ghost pass0 = self.world.foodstuffs@;
            let ghost animals_pass = self.world.animals@;
            let ghost sat0 = self.world.animals@[a_idx as int].satiation;
            proof {
                assert(sat0 == animals0[a_idx as int].satiation);
            }
            let mut f_idx: usize = 0;
            while f_idx < nf
                invariant
                    na == animals0.len(),
                    a_idx < na,
                    nf == pass0.len(),
                    animals_pass.len() == na,
                    self.world.animals@.len() == na,
                    self.world.foodstuffs@.len() == nf,
                    self.age == old(self).age,
                    self.ga == old(self).ga,
                    f_idx <= nf,
                    nf <= 4096,
                    ax == animals0[a_idx as int].x,
                    ay == animals0[a_idx as int].y,
                    sat0 == animals0[a_idx as int].satiation,
                    sat0 as int <= (GENERATION_LENGTH as int) * (nf as int),
                    forall|i: int| 0 <= i < na && i != a_idx ==> #[trigger] self.world.animals@[i]
                        == animals_pass[i],
                    same_but_satiation(
                        animals0[a_idx as int],
                        self.world.animals@[a_idx as int],
                    ),
                    self.world.animals@[a_idx as int].satiation as int == sat0 as int
                        + eaten_count(ax, ay, pass0.take(f_idx as int)),
                    forall|j: int| f_idx <= j < nf ==> #[trigger] self.world.foodstuffs@[j]
                        == pass0[j],
                    forall|j: int|
                        0 <= j < f_idx && !collides_spec(ax, ay, (#[trigger] pass0[j]).x, pass0[j].y)
                            ==> self.world.foodstuffs@[j] == pass0[j],
                decreases nf - f_idx,
            {
                let f = self.world.foodstuffs[f_idx];
                proof {
                    assert(pass0.take(f_idx + 1).drop_last() =~= pass0.take(f_idx as int));
                    assert(pass0.take(f_idx + 1).last() == pass0[f_idx as int]);
                    lemma_eaten_count_le(ax, ay, pass0.take(f_idx as int));
                    assert((GENERATION_LENGTH as int) * (nf as int) + (nf as int)
                        < 0x1_0000_0000) by (nonlinear_arith)
                        requires
                            nf <= 4096,
                    ;
                }
                if collides(ax, ay, f.x, f.y) {
                    let s = self.world.animals[a_idx].satiation;
                    self.world.animals[a_idx].satiation = s + 1;
                    let newf = Food::random(rng);
                    self.world.foodstuffs.set(f_idx, newf);
                }
                f_idx += 1;
            }
            proof {
                assert(pass0.take(nf as int) =~= pass0);
                lemma_eaten_count_le(ax, ay, pass0);
                assert(reloc_rel(ax, ay, pass0, self.world.foodstuffs@));
            }
            proof {
                chain = chain.push(self.world.foodstuffs@);
            }
            a_idx += 1;
        }
        proof {
            assert(collisions_chain_rel(animals0, self.world.animals@, chain));
            assert(final(self).world.wf()) by {
                assert(forall|i: int| 0 <= i < na ==> (#[trigger] self.world.animals@[i]).wf());
            }
        }
    }

    fn process_brains(&mut self)
        requires
            old(self).world.wf(),
        ensures
            final(self).world.wf(),
            final(self).age == old(self).age,
            final(self).ga == old(self).ga,
            final(self).world.foodstuffs@ == old(self).world.foodstuffs@,
            brains_rel(
                old(self).world.animals@,
                final(self).world.animals@,
                old(self).world.foodstuffs@,
            ),
            forall|i: int|
                0 <= i < old(self).world.animals@.len()
                    ==> SPEED_MIN <= (#[trigger] final(self).world.animals@[i]).speed
                    && final(self).world.animals@[i].speed <= SPEED_MAX && abs_i(
                    final(self).world.animals@[i].rotation as int,
                ) <= abs_i(old(self).world.animals@[i].rotation as int) + ROTATION_ACCEL,
    {
        let na = self.world.animals.len();
        let ghost animals0 = self.world.animals@;
        let mut i: usize = 0;
        while i < na
            invariant
                old(self).world.wf(),
                na == animals0.len(),
                animals0 == old(self).world.animals@,
                self.world.animals@.len() == na,
                self.world.foodstuffs@ == old(self).world.foodstuffs@,
                self.age == old(self).age,
                self.ga == old(self).ga,
                i <= na,
                forall|k: int| i <= k < na ==> #[trigger] self.world.animals@[k] == animals0[k],
                forall|k: int| 0 <= k < i ==> steer_rel(
                    animals0[k],
                    #[trigger] self.world.animals@[k],
                    self.world.foodstuffs@,
                ),
                forall|k: int| 0 <= k < i ==> SPEED_MIN <= (
                #[trigger] self.world.animals@[k]).speed <= SPEED_MAX && abs_i(
                    self.world.animals@[k].rotation as int,
                ) <= abs_i(animals0[k].rotation as int) + ROTATION_ACCEL,
            decreases na - i,
        {
            proof {
                assert(animals0[i as int].wf());
            }
            let ax = self.world.animals[i].x;
            let ay = self.world.animals[i].y;
            let rot = self.world.animals[i].rotation;
            let vision = self.world.animals[i].eye.vision(ax, ay, rot, &self.world.foodstuffs);
            let ghost v = vision@;
            let response = match self.world.animals[i].brain.propogate(vision) {
                Ok(r) => r,
                Err(_) => {
                    proof {
                        let c = animals0[i as int].eye.cells_spec();
                        assert(brain_topo(c)[0] == c);
                        assert(brain_topo(c)[1] == (2 * c) as usize);
                        assert(animals0[i as int].brain.rep()[0].len() == (2 * c) as usize);
                    }
                    vstd::pervasive::unreached()
                },
            };
            proof {
                let c = animals0[i as int].eye.cells_spec();
                assert(brain_topo(c).last() == 2usize);
            }
            let delta_speed = fx_clamp(response[0], -SPEED_ACCEL, SPEED_ACCEL);
            let delta_rotation = fx_clamp(response[1], -ROTATION_ACCEL, ROTATION_ACCEL);
            let old_speed = self.world.animals[i].speed;
            let new_speed = fx_clamp(fx_add(old_speed, delta_speed), SPEED_MIN, SPEED_MAX);
            let new_rotation = fx_add(rot, delta_rotation);
            self.world.animals[i].speed = new_speed;
            self.world.animals[i].rotation = new_rotation;
            proof {
                assert(animals0[i as int].brain.out_spec(v) == response@);
                assert(steer_rel(
                    animals0[i as int],
                    self.world.animals@[i as int],
                    self.world.foodstuffs@,
                ));
            }
            i += 1;
        }
        proof {
            assert(final(self).world.wf()) by {
                assert(forall|k: int| 0 <= k < na ==> (#[trigger] self.world.animals@[k]).wf());
            }
        }
    }

    fn process_movements(&mut self)
        requires
            old(self).world.wf(),
            forall|i: int|
                0 <= i < old(self).world.animals@.len() ==> abs_i(
                    (#[trigger] old(self).world.animals@[i]).rotation as int,
                ) <= TWO_PI_FX + 2501 * (ROTATION_ACCEL as int),
        ensures
            final(self).world.wf(),
            final(self).age == old(self).age,
            final(self).ga == old(self).ga,
            final(self).world.foodstuffs@ == old(self).world.foodstuffs@,
            movements_rel(old(self).world.animals@, final(self).world.animals@),
    {
        let na = self.world.animals.len();
        let ghost animals0 = self.world.animals@;
        let mut i: usize = 0;
        while i < na
            invariant
                old(self).world.wf(),
                na == animals0.len(),
                animals0 == old(self).world.animals@,
                forall|k: int| 0 <= k < na ==> abs_i((#[trigger] animals0[k]).rotation as int)
                    <= TWO_PI_FX + 2501 * (ROTATION_ACCEL as int),
                self.world.animals@.len() == na,
                self.world.foodstuffs@ == old(self).world.foodstuffs@,
                self.age == old(self).age,
                self.ga == old(self).ga,
                i <= na,
                forall|k: int| i <= k < na ==> #[trigger] self.world.animals@[k] == animals0[k],
                forall|k: int| 0 <= k < i ==> move_rel(
                    animals0[k],
                    #[trigger] self.world.animals@[k],
                ),
            decreases na - i,
        {
            let rot = self.world.animals[i].rotation;
            let speed = self.world.animals[i].speed;
            let neg = rot < 0;
            let mag = crate::fx::fx_abs_u64(rot);
            let mag_q16 = mag / 65536;
            let angle: i32 = if neg {
                -(mag_q16 as i32)
            } else {
                mag_q16 as i32
            };
            proof {
                assert(angle as int == heading_q16(rot));
            }
            let (sin_q16, cos_q16) = fx_sin_cos(angle);
            let cos_wide = (cos_q16 as i64) * 65536;
            let sin_wide = (sin_q16 as i64) * 65536;
            let dx = fx_clamp(fx_mul(speed, cos_wide), -(FX_ONE - 1), FX_ONE - 1);
            let dy = fx_clamp(fx_mul(speed, sin_wide), -(FX_ONE - 1), FX_ONE - 1);
            let nx = wrap_coord(self.world.animals[i].x, dx);
            let ny = wrap_coord(self.world.animals[i].y, dy);
            self.world.animals[i].x = nx;
            self.world.animals[i].y = ny;
            i += 1;
        }
        proof {
            assert(final(self).world.wf()) by {
                assert(forall|k: int| 0 <= k < na ==> (#[trigger] self.world.animals@[k]).wf());
            }
        }
    }

    fn evolve(&mut self, rng: &mut rand::rngs::StdRng) -> (r: Statistics)
        requires
            old(self).world.wf(),
            forall|i: int|
                0 <= i < old(self).world.animals@.len()
                    ==> (#[trigger] old(self).world.animals@[i]).satiation as int <= (
                GENERATION_LENGTH as int + 1) * (old(self).world.foodstuffs@.len() as int),
        ensures
            final(self).wf(),
            final(self).age == 0,
            final(self).ga == old(self).ga,
            final(self).world.animals@.len() == old(self).world.animals@.len(),
            final(self).world.foodstuffs@.len() == old(self).world.foodstuffs@.len(),
            evolution_rel(
                old(self).ga,
                old(self).world.animals@,
                final(self).world.animals@,
                r,
            ),
    {
        self.age = 0;
        let na = self.world.animals.len();
        let nf = self.world.foodstuffs.len();
        let ghost animals0 = self.world.animals@;
        let ghost c0 = animals0[0].eye.cells_spec();
        let mut individuals: Vec<AnimalIndividual> = Vec::new();
        let mut i: usize = 0;
        while i < na
            invariant
                old(self).world.wf(),
                na == animals0.len(),
                animals0 == self.world.animals@,
                self.world == old(self).world,
                self.ga == old(self).ga,
                i <= na,
                individuals@.len() == i,
                forall|k: int| 0 <= k < i ==> (#[trigger] individuals@[k].fitness_spec())
                    == animals0[k].satiation,
                forall|k: int| 0 <= k < i ==> (#[trigger] individuals@[k].chromosome_spec())
                    == animals0[k].brain.encoding(),
            decreases na - i,
        {
            let ind = AnimalIndividual::from_animal(&self.world.animals[i]);
            individuals.push(ind);
            i += 1;
        }
        proof {
            assert(adapts(animals0, individuals@));
            let pc = crate::network::param_count(brain_topo(c0));
            assert forall|k: int|
                0 <= k < na implies (#[trigger] individuals@[k].chromosome_spec()).len() == pc by {
                assert(animals0[k].wf());
                assert(animals0[k].eye.cells_spec() == c0);
                lemma_encoding_len(&animals0[k].brain);
            }
            assert(individuals@[0].chromosome_spec().len() == pc);
            assert forall|k: int|
                0 <= k < na implies (#[trigger] individuals@[k].fitness_spec()) as int <= (
            GENERATION_LENGTH as int + 1) * 4096 by {
                assert(animals0[k].satiation as int <= (GENERATION_LENGTH as int + 1) * (
                nf as int));
                assert((GENERATION_LENGTH as int + 1) * (nf as int) <= (GENERATION_LENGTH as int
                    + 1) * 4096) by (nonlinear_arith)
                    requires
                        nf <= 4096,
                ;
            }
            lemma_sum_fitness_bound(individuals@, (GENERATION_LENGTH as int + 1) * 4096);
            assert((na as int) * ((GENERATION_LENGTH as int + 1) * 4096) <= 256 * ((
            GENERATION_LENGTH as int + 1) * 4096)) by (nonlinear_arith)
                requires
                    na <= 256,
            ;
        }
        let evolved = self.ga.evolve(rng, &individuals);
        let mut new_population = evolved.0;
        let stats = evolved.1;
        let ghost evolved0 = new_population@;
        let mut new_animals: Vec<Animal<E>> = Vec::new();
        let n_new = new_population.len();
        let mut j: usize = 0;
        while j < n_new
            invariant
                old(self).world.wf(),
                na == animals0.len(),
                animals0 == self.world.animals@,
                self.world == old(self).world,
                self.ga == old(self).ga,
                c0 == animals0[0].eye.cells_spec(),
                n_new == na,
                n_new == evolved0.len(),
                new_population@ == evolved0.skip(j as int),
                forall|k: int| 0 <= k < evolved0.len()
                    ==> (#[trigger] evolved0[k].chromosome_spec()).len()
                    == crate::network::param_count(brain_topo(c0)),
                j <= n_new,
                new_animals@.len() == j,
                forall|k: int| 0 <= k < j ==> (#[trigger] new_animals@[k]).wf(),
                forall|k: int| 0 <= k < j ==> (#[trigger] new_animals@[k]).eye.cells_spec() == c0,
                forall|k: int| 0 <= k < j ==> (#[trigger] new_animals@[k]).satiation == 0,
                forall|k: int| 0 <= k < j ==> (#[trigger] new_animals@[k]).speed == SPEED_DEFAULT,
                forall|k: int| 0 <= k < j ==> 0 <= (#[trigger] new_animals@[k]).rotation
                    < TWO_PI_FX,
                forall|k: int| 0 <= k < j ==> (#[trigger] new_animals@[k]).brain.encoding()
                    == evolved0[k].chromosome_spec(),
            decreases n_new - j,
        {
            proof {
                assert(new_population@[0] == evolved0[j as int]);
                assert(evolved0.skip(j as int).drop_first() =~= evolved0.skip(j + 1));
            }
            let ind = new_population.remove(0);
            let a = ind.into_animal(rng, &self.world.animals[0].eye);
            new_animals.push(a);
            j += 1;
        }
        self.world.animals = new_animals;
        let mut f: usize = 0;
        while f < nf
            invariant
                nf == self.world.foodstuffs@.len(),
                f <= nf,
                nf <= 4096,
                self.world.animals@.len() == na,
                1 <= na <= 256,
                forall|k: int| 0 <= k < na ==> (#[trigger] self.world.animals@[k]).wf(),
                forall|k: int| 0 <= k < na ==> (#[trigger] self.world.animals@[k]).eye.cells_spec()
                    == c0,
                forall|k: int| 0 <= k < na ==> (#[trigger] self.world.animals@[k]).satiation == 0,
                forall|k: int| 0 <= k < na ==> (#[trigger] self.world.animals@[k]).speed
                    == SPEED_DEFAULT,
                forall|k: int| 0 <= k < na ==> 0 <= (#[trigger] self.world.animals@[k]).rotation
                    < TWO_PI_FX,
                forall|k: int| 0 <= k < na ==> (#[trigger] self.world.animals@[k]).brain.encoding()
                    == evolved0[k].chromosome_spec(),
                na == evolved0.len(),
                self.age == 0,
                self.ga == old(self).ga,
            decreases nf - f,
        {
            let newf = Food::random(rng);
            self.world.foodstuffs.set(f, newf);
            f += 1;
        }
        proof {
            assert forall|i2: int|
                0 <= i2 < self.world.animals@.len() implies offspring_of(
                old(self).ga.crossover_spec(),
                old(self).ga.mutation_spec(),
                individuals@,
                (#[trigger] self.world.animals@[i2]).brain.encoding(),
            ) by {
                assert(self.world.animals@[i2].brain.encoding() == evolved0[i2].chromosome_spec());
            }
            assert(adapts(animals0, individuals@));
            assert(evolution_rel(old(self).ga, animals0, self.world.animals@, stats));
        }
        stats
    }

    /// Advance exactly one tick: feed colliding agents and relocate what
    /// they ate, let every brain adjust speed and rotation, move every
    /// agent along its heading over the torus, and count the tick. Once
    /// the age counter passes the generation length, the whole population
    /// is replaced by an evolved one, the age resets to zero, and the
    /// statistics of the replaced generation are returned.
    pub fn step(&mut self, rng: &mut rand::rngs::StdRng) -> (r: Option<Statistics>)
        requires
            old(self).wf(),
        ensures
            final(self).wf(),
            final(self).world.animals@.len() == old(self).world.animals@.len(),
            final(self).world.foodstuffs@.len() == old(self).world.foodstuffs@.len(),
            old(self).age < GENERATION_LENGTH ==> r is None && final(self).age == old(self).age
                + 1,
            old(self).age == GENERATION_LENGTH ==> r is Some && final(self).age == 0,
            r is None ==> exists|mid1: Seq<Animal<E>>, mid2: Seq<Animal<E>>, chain: Seq<Seq<Food>>|
                #![trigger collisions_chain_rel(old(self).world.animals@, mid1, chain), brains_rel(mid1, mid2, final(self).world.foodstuffs@)]
                collisions_chain_rel(old(self).world.animals@, mid1, chain)
                    && chain[0] == old(self).world.foodstuffs@
                    && chain.last() == final(self).world.foodstuffs@
                    && brains_rel(mid1, mid2, final(self).world.foodstuffs@)
                    && movements_rel(mid2, final(self).world.animals@),
            r is Some ==> exists|
                mid1: Seq<Animal<E>>,
                mid2: Seq<Animal<E>>,
                mid3: Seq<Animal<E>>,
                chain: Seq<Seq<Food>>,
            |
                #![trigger collisions_chain_rel(old(self).world.animals@, mid1, chain), brains_rel(mid1, mid2, chain.last()), movements_rel(mid2, mid3)]
                collisions_chain_rel(old(self).world.animals@, mid1, chain)
                    && chain[0] == old(self).world.foodstuffs@
                    && brains_rel(mid1, mid2, chain.last()) && movements_rel(mid2, mid3)
                    && evolution_rel(
                    old(self).ga,
                    mid3,
                    final(self).world.animals@,
                    r.unwrap(),
                ),
    {
        let ghost age0 = self.age;
        let ghost animals_start = self.world.animals@;
        let ghost foods_start = self.world.foodstuffs@;
        let ghost nf0 = self.world.foodstuffs@.len() as int;
        proof {
            assert forall|i: int|
                0 <= i < animals_start.len() implies (
            #[trigger] animals_start[i]).satiation as int <= (GENERATION_LENGTH as int) * nf0 by {
                assert(animals_start[i].satiation as int <= (age0 as int) * nf0);
                assert((age0 as int) * nf0 <= (GENERATION_LENGTH as int) * nf0)
                    by (nonlinear_arith)
                    requires
                        age0 <= GENERATION_LENGTH,
                        nf0 >= 0,
                ;
            }
        }
        self.process_collisions(rng);
        let ghost after_coll = self.world.animals@;
        let ghost foods_after_coll = self.world.foodstuffs@;
        self.process_brains();
        let ghost after_brains = self.world.animals@;
        proof {
            assert forall|i: int| 0 <= i < after_brains.len() implies abs_i(
                (#[trigger] after_brains[i]).rotation as int,
            ) <= TWO_PI_FX + 2501 * (ROTATION_ACCEL as int) by {
                assert(abs_i(after_coll[i].rotation as int) <= rotation_cap(age0));
                assert((age0 as int) * (ROTATION_ACCEL as int) <= 2500 * (ROTATION_ACCEL as int))
                    by (nonlinear_arith)
                    requires
                        age0 <= 2500,
                ;
            }
        }
        self.process_movements();
        self.age = self.age + 1;
        proof {
            assert forall|i: int| 0 <= i < self.world.animals@.len() implies (
            #[trigger] self.world.animals@[i]).satiation as int <= (self.age as int) * nf0 by {
                assert(animals_start[i].satiation as int <= (age0 as int) * nf0);
                assert(self.world.animals@[i].satiation <= after_coll[i].satiation);
                assert((age0 as int) * nf0 + nf0 == (age0 as int + 1) * nf0) by (nonlinear_arith);
            }
            assert forall|i: int| 0 <= i < self.world.animals@.len() implies abs_i(
                (#[trigger] self.world.animals@[i]).rotation as int,
            ) <= rotation_cap(self.age) by {
                assert(abs_i(after_coll[i].rotation as int) <= rotation_cap(age0));
            }
        }
        if self.age > GENERATION_LENGTH {
            proof {
                assert forall|i: int|
                    0 <= i < self.world.animals@.len() implies (
                #[trigger] self.world.animals@[i]).satiation as int <= (GENERATION_LENGTH as int
                    + 1) * nf0 by {
                    assert((self.age as int) * nf0 <= (GENERATION_LENGTH as int + 1) * nf0)
                        by (nonlinear_arith)
                        requires
                            self.age <= GENERATION_LENGTH + 1,
                            nf0 >= 0,
                    ;
                }
            }
            let ghost mid3 = self.world.animals@;
            let stats = self.evolve(rng);
            proof {
                let chain = choose|chain: Seq<Seq<Food>>|
                    #[trigger] collisions_chain_rel(animals_start, after_coll, chain) && chain[0]
                        == foods_start && chain.last() == foods_after_coll;
                assert(collisions_chain_rel(animals_start, after_coll, chain));
                assert(brains_rel(after_coll, after_brains, chain.last()));
                assert(movements_rel(after_brains, mid3));
            }
            Some(stats)
        } else {
            proof {
                let chain = choose|chain: Seq<Seq<Food>>|
                    #[trigger] collisions_chain_rel(animals_start, after_coll, chain) && chain[0]
                        == foods_start && chain.last() == foods_after_coll;
                assert(collisions_chain_rel(animals_start, after_coll, chain));
                assert(brains_rel(after_coll, after_brains, foods_after_coll));
                assert(movements_rel(after_brains, self.world.animals@));
            }
            None
        }
    }
}

proof fn lemma_age_prefix(ages: Seq<u32>, evolved: Seq<bool>, k: int)
    requires
        ages.len() == evolved.len() + 1,
        ages.len() >= 1,
        ages[0] == 0,
        forall|j: int|
            0 <= j < evolved.len() && ages[j] < GENERATION_LENGTH ==> !(#[trigger] evolved[j])
                && ages[j + 1] == ages[j] + 1,
        0 <= k <= GENERATION_LENGTH,
        k < ages.len(),
    ensures
        ages[k] == k,
    decreases k,
{
    if k > 0 {
        lemma_age_prefix(ages, evolved, k - 1);
        assert(ages[k - 1] < GENERATION_LENGTH);
        assert(!evolved[k - 1] && ages[k] == ages[k - 1] + 1);
    }
}

/// Law: the generation trigger over a whole run. Take the trace of a
/// simulation stepped from a fresh state: `ages[k]` is the age counter
/// after `k` steps and `evolved[k]` says whether step `k + 1` returned
/// statistics (that is, evolved). The hypotheses are exactly what
/// `Simulation::step`'s contract gives for each call. Then none of the
/// first `GENERATION_LENGTH` steps evolves and the age equals the number
/// of steps taken; a run of exactly `GENERATION_LENGTH + 1` steps evolves
/// exactly once, on its last step, and ends with the age reset to zero.
pub proof fn lemma_generation_trigger(ages: Seq<u32>, evolved: Seq<bool>)
    requires
        ages.len() == evolved.len() + 1,
        ages.len() >= 1,
        ages[0] == 0,
        forall|k: int|
            0 <= k < evolved.len() && ages[k] < GENERATION_LENGTH ==> !(#[trigger] evolved[k])
                && ages[k + 1] == ages[k] + 1,
        forall|k: int|
            0 <= k < evolved.len() && ages[k] == GENERATION_LENGTH ==> (#[trigger] evolved[k])
                && ages[k + 1] == 0,
    ensures
        forall|k: int| 0 <= k <= GENERATION_LENGTH && k < ages.len() ==> (#[trigger] ages[k]) == k,
        forall|k: int| 0 <= k < GENERATION_LENGTH && k < evolved.len() ==> !(#[trigger] evolved[k]),
        evolved.len() == GENERATION_LENGTH + 1 ==> evolved[GENERATION_LENGTH as int]
            && ages.last() == 0,
{
    assert forall|k: int| 0 <= k <= GENERATION_LENGTH && k < ages.len() implies (
    #[trigger] ages[k]) == k by {
        lemma_age_prefix(ages, evolved, k);
    }
    if evolved.len() == GENERATION_LENGTH + 1 {
        lemma_age_prefix(ages, evolved, GENERATION_LENGTH as int);
    }
}

} // verus!
