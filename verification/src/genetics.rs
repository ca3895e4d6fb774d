//! The genetic-algorithm engine: selection, crossover, mutation and the
//! generational orchestrator, generic over any fitness-scored individual.

use vstd::prelude::*;
use rand::seq::SliceRandom;

use crate::fx::{fx_add, fx_mul, fx_mul_spec, fx_neg, sat64};
use crate::rng::{rand_bool, rand_index, rand_u32};

verus! {

use vstd::pervasive::unreached;

/// A precondition violation of the engine.
#[derive(Debug, Clone, Copy, PartialEq, Eq, Structural)]
pub enum GaError {
    /// Selection or evolution was invoked on zero individuals.
    EmptyPopulation,
    /// Crossover was invoked on chromosomes of different lengths.
    ChromosomeLengthMismatch,
}

/// An ordered, fixed-length sequence of genes. A gene is one Q32.32
/// fixed-point value; a chromosome is immutable except through explicit
/// mutation.
#[derive(Debug, Clone)]
pub struct Chromosome {
    genes: Vec<i64>,
}

impl View for Chromosome {
    type V = Seq<i64>;

    closed spec fn view(&self) -> Seq<i64> {
        self.genes@
    }
}

impl Chromosome {
    /// Wrap a gene vector as a chromosome.
    pub fn from_genes(genes: Vec<i64>) -> (r: Self)
        ensures
            r@ == genes@,
    {
        Chromosome { genes }
    }

    /// The number of genes.
    pub fn len(&self) -> (r: usize)
        ensures
            r == self@.len(),
    {
        self.genes.len()
    }

    /// The gene at `index`.
    pub fn gene(&self, index: usize) -> (r: i64)
        requires
            index < self@.len(),
        ensures
            r == self@[index as int],
    {
        self.genes[index]
    }

    /// Overwrite the gene at `index`.
    pub fn set_gene(&mut self, index: usize, value: i64)
        requires
            index < old(self)@.len(),
        ensures
            final(self)@ == old(self)@.update(index as int, value),
    {
        self.genes.set(index, value);
    }

    /// The genes as a vector, in order.
    pub fn genes(&self) -> (r: &Vec<i64>)
        ensures
            r@ == self@,
    {
        &self.genes
    }

    /// Consume the chromosome, yielding its gene vector.
    pub fn into_genes(self) -> (r: Vec<i64>)
        ensures
            r@ == self@,
    {
        self.genes
    }
}

/// Anything scoreable by a fitness and reconstructible from a chromosome.
/// Fitness is a non-negative count (here: food eaten), which keeps
/// roulette selection well-defined.
pub trait Individual: Sized {
    /// The individual's fitness, at the specification level.
    spec fn fitness_spec(&self) -> u32;

    /// The individual's chromosome, at the specification level.
    spec fn chromosome_spec(&self) -> Seq<i64>;

    /// The fitness score driving selection probability.
    fn fitness(&self) -> (r: u32)
        ensures
            r == self.fitness_spec(),
    ;

    /// The individual's evolvable state.
    fn chromosome(&self) -> (r: &Chromosome)
        ensures
            r@ == self.chromosome_spec(),
    ;

    /// Materialize a new individual from a chromosome.
    fn create(chromosome: Chromosome) -> (r: Self)
        ensures
            r.chromosome_spec() == chromosome@,
    ;
}

/// The summed fitness of a population.
pub open spec fn sum_fitness<I: Individual>(s: Seq<I>) -> int
    decreases s.len(),
{
    if s.len() == 0 {
        0
    } else {
        sum_fitness(s.drop_last()) + s.last().fitness_spec()
    }
}

/// The least fitness in a non-empty population (0 on an empty one).
pub open spec fn min_fitness_of<I: Individual>(s: Seq<I>) -> int
    decreases s.len(),
{
    if s.len() == 0 {
        0
    } else if s.len() == 1 {
        s[0].fitness_spec() as int
    } else {
        let m = min_fitness_of(s.drop_last());
        if s.last().fitness_spec() < m {
            s.last().fitness_spec() as int
        } else {
            m
        }
    }
}

/// The greatest fitness in a population (0 on an empty one).
pub open spec fn max_fitness_of<I: Individual>(s: Seq<I>) -> int
    decreases s.len(),
{
    if s.len() == 0 {
        0
    } else {
        let m = max_fitness_of(s.drop_last());
        if s.last().fitness_spec() > m {
            s.last().fitness_spec() as int
        } else {
            m
        }
    }
}

/// A population whose members' fitness is bounded has a bounded total.
pub proof fn lemma_sum_fitness_bound<I: Individual>(s: Seq<I>, bound: int)
    requires
        bound >= 0,
        forall|i: int| 0 <= i < s.len() ==> (#[trigger] s[i].fitness_spec()) as int <= bound,
    ensures
        sum_fitness(s) <= s.len() * bound,
    decreases s.len(),
{
    if s.len() == 0 {
    } else {
        assert(forall|i: int| 0 <= i < s.len() - 1 ==> s.drop_last()[i] == s[i]);
        lemma_sum_fitness_bound(s.drop_last(), bound);
        assert((s.len() - 1) * bound + bound == s.len() * bound) by (nonlinear_arith);
    }
}

/// Law: any pick that the selection contract admits over a population of
/// one individual is that individual.
pub proof fn lemma_singleton_selection<I: Individual>(population: Seq<I>, chosen: I)
    requires
        population.len() == 1,
        exists|i: int| 0 <= i < population.len() && chosen == population[i],
    ensures
        chosen == population[0],
{
}

/// A strategy that picks one individual from a population, weighted by
/// fitness.
pub trait SelectionMethod {
    /// Pick one individual. Fails exactly on an empty population.
    fn select<'a, I: Individual>(
        &self,
        rng: &mut rand::rngs::StdRng,
        population: &'a Vec<I>,
    ) -> (r: Result<&'a I, GaError>)
        requires
            sum_fitness(population@) <= u32::MAX as int,
        ensures
            r is Ok <==> population@.len() > 0,
            r is Err ==> r == Err::<&'a I, GaError>(GaError::EmptyPopulation),
            r is Ok ==> exists|i: int|
                0 <= i < population@.len() && *r.unwrap() == population@[i],
    ;
}

/// A strategy that combines two equal-length chromosomes into a child.
pub trait CrossoverMethod {
    /// What the strategy guarantees of a child's genes against its
    /// parents' genes.
    spec fn crossover_rel(&self, parent_a: Seq<i64>, parent_b: Seq<i64>, child: Seq<i64>) -> bool;

    /// Combine two parents. Fails exactly on a length mismatch.
    fn crossover(
        &self,
        rng: &mut rand::rngs::StdRng,
        parent_a: &Chromosome,
        parent_b: &Chromosome,
    ) -> (r: Result<Chromosome, GaError>)
        ensures
            r is Ok <==> parent_a@.len() == parent_b@.len(),
            r is Err ==> r == Err::<Chromosome, GaError>(GaError::ChromosomeLengthMismatch),
            r is Ok ==> r.unwrap()@.len() == parent_a@.len(),
            r is Ok ==> self.crossover_rel(parent_a@, parent_b@, r.unwrap()@),
    ;
}

/// A strategy that perturbs a chromosome in place.
pub trait MutationMethod {
    /// What the strategy guarantees of the mutated genes against the
    /// original ones.
    spec fn mutate_rel(&self, before: Seq<i64>, after: Seq<i64>) -> bool;

    /// Mutate the child. The gene count never changes.
    fn mutate(&self, rng: &mut rand::rngs::StdRng, child: &mut Chromosome)
        ensures
            final(child)@.len() == old(child)@.len(),
            self.mutate_rel(old(child)@, final(child)@),
    ;
}

/// A child arises from the population: some two of its members were
/// picked as parents, their gene vectors were combined by the crossover
/// strategy, and the result was reshaped by the mutation strategy.
pub open spec fn offspring_of<C: CrossoverMethod, M: MutationMethod, I: Individual>(
    cm: C,
    mm: M,
    population: Seq<I>,
    child: Seq<i64>,
) -> bool {
    exists|a: int, b: int, mid: Seq<i64>|
        0 <= a < population.len() && 0 <= b < population.len() && #[trigger] cm.crossover_rel(
            population[a].chromosome_spec(),
            population[b].chromosome_spec(),
            mid,
        ) && mm.mutate_rel(mid, child)
}

/// Roulette-wheel selection: each individual is chosen with probability
/// proportional to its fitness; an all-zero population falls back to a
/// uniform pick.
#[derive(Debug, Clone, Copy, Default)]
pub struct RouletteWheelSelection;

impl RouletteWheelSelection {
    pub fn new() -> (r: Self) {
        RouletteWheelSelection
    }
}

/// Relies on rand's `SliceRandom::choose_weighted`, weighting each
/// individual by its fitness: given at least one element and a total
/// weight at most `u32::MAX`, it fails exactly when the total weight is
/// zero, and otherwise picks an element of positive weight with
/// probability proportional to that weight.
#[verifier::external_body]
fn choose_weighted_by_fitness<'a, I: Individual>(
    rng: &mut rand::rngs::StdRng,
    population: &'a Vec<I>,
) -> (r: Option<&'a I>)
    requires
        population@.len() > 0,
        sum_fitness(population@) <= u32::MAX as int,
    ensures
        r is None <==> sum_fitness(population@) == 0,
        r is Some ==> r.unwrap().fitness_spec() > 0 && exists|i: int|
            0 <= i < population@.len() && *r.unwrap() == population@[i],
{
    population.as_slice().choose_weighted(rng, |individual| individual.fitness()).ok()
}

impl SelectionMethod for RouletteWheelSelection {
    fn select<'a, I: Individual>(
        &self,
        rng: &mut rand::rngs::StdRng,
        population: &'a Vec<I>,
    ) -> (r: Result<&'a I, GaError>)
        ensures
            r is Ok && sum_fitness(population@) > 0 ==> r.unwrap().fitness_spec() > 0,
    {
        if population.len() == 0 {
            return Err(GaError::EmptyPopulation);
        }
        match choose_weighted_by_fitness(rng, population) {
            Some(individual) => Ok(individual),
            None => {
                // Every fitness is zero: the documented tie-break is a
                // uniform-random pick.
                let i = rand_index(rng, population.len());
                Ok(&population[i])
            },
        }
    }
}

/// Gene-uniform crossover: for each index an independent fair coin picks
/// the gene of parent A or of parent B.
#[derive(Debug, Clone, Copy, Default)]
pub struct UniformCrossover;

impl UniformCrossover {
    pub fn new() -> (r: Self) {
        UniformCrossover
    }
}

impl CrossoverMethod for UniformCrossover {
    /// Every gene of the child is the corresponding gene of parent A or
    /// of parent B — never an interpolation.
    open spec fn crossover_rel(&self, parent_a: Seq<i64>, parent_b: Seq<i64>, child: Seq<i64>) -> bool {
        &&& child.len() == parent_a.len()
        &&& parent_a.len() == parent_b.len()
        &&& forall|i: int| 0 <= i < child.len() ==> #[trigger] child[i] == parent_a[i] || child[i]
            == parent_b[i]
    }

    fn crossover(
        &self,
        rng: &mut rand::rngs::StdRng,
        parent_a: &Chromosome,
        parent_b: &Chromosome,
    ) -> (r: Result<Chromosome, GaError>)
    {
        if parent_a.len() != parent_b.len() {
            return Err(GaError::ChromosomeLengthMismatch);
        }
        let n = parent_a.len();
        let mut genes: Vec<i64> = Vec::new();
        let mut i: usize = 0;
        while i < n
            invariant
                n == parent_a@.len() == parent_b@.len(),
                i <= n,
                genes@.len() == i,
                forall|j: int| 0 <= j < i ==>
                    genes@[j] == parent_a@[j] || genes@[j] == parent_b@[j],
            decreases n - i,
        {
            if rand_bool(rng) {
                genes.push(parent_a.gene(i));
            } else {
                genes.push(parent_b.gene(i));
            }
            i += 1;
        }
        Ok(Chromosome::from_genes(genes))
    }
}

/// Whether `after` is `before` perturbed by `sign * coeff * u` for some
/// magnitude `u` drawn from `[0, 1)`, in saturating Q32.32 arithmetic.
pub open spec fn perturbed(before: i64, after: i64, coeff: i64) -> bool {
    exists|u: int|
        0 <= u < 0x1_0000_0000 && (after == sat64(
            before + #[trigger] fx_mul_spec(coeff as int, u),
        ) || after == sat64(before + sat64(-fx_mul_spec(coeff as int, u))))
}

/// Uniform-perturbation mutation: each gene independently mutates with
/// probability `chance`, gaining `sign * coeff * u` with `sign` a fair
/// coin and `u` uniform over `[0, 1)`.
#[derive(Debug, Clone, Copy)]
pub struct GaussianMutation {
    /// Probability of mutating one gene, in units of `2^-32`; at most
    /// `2^32` (certainty).
    chance: u64,
    /// Scale of one perturbation, a non-negative Q32.32 number.
    coeff: i64,
}

impl GaussianMutation {
    /// The mutation probability, in units of `2^-32`.
    pub closed spec fn chance_spec(&self) -> u64 {
        self.chance
    }

    /// The perturbation scale.
    pub closed spec fn coeff_spec(&self) -> i64 {
        self.coeff
    }

    /// `chance` must lie in `[0, 1]` (units of `2^-32`) and `coeff` must
    /// be non-negative.
    pub fn new(chance: u64, coeff: i64) -> (r: Self)
        requires
            chance <= 0x1_0000_0000,
            coeff >= 0,
        ensures
            r.chance_spec() == chance,
            r.coeff_spec() == coeff,
    {
        GaussianMutation { chance, coeff }
    }
}

impl MutationMethod for GaussianMutation {
    /// Each gene is left bit-identical or perturbed by `sign * coeff * u`
    /// with `u` from `[0, 1)`; with chance zero nothing changes at all.
    open spec fn mutate_rel(&self, before: Seq<i64>, after: Seq<i64>) -> bool {
        &&& after.len() == before.len()
        &&& forall|i: int| 0 <= i < before.len() ==> #[trigger] after[i] == before[i] || perturbed(
            before[i],
            after[i],
            self.coeff_spec(),
        )
        &&& self.chance_spec() == 0 ==> after == before
    }

    fn mutate(&self, rng: &mut rand::rngs::StdRng, child: &mut Chromosome)
    {
        let n = child.len();
        let mut i: usize = 0;
        while i < n
            invariant
                n == old(child)@.len(),
                i <= n,
                child@.len() == n,
                forall|j: int| 0 <= j < n ==>
                    child@[j] == old(child)@[j]
                    || perturbed(old(child)@[j], child@[j], self.coeff_spec()),
                forall|j: int| i <= j < n ==> child@[j] == old(child)@[j],
                self.chance == 0 ==> child@ =~= old(child)@,
            decreases n - i,
        {
            let sign_negative = rand_bool(rng);
            let roll = rand_u32(rng) as u64;
            if roll < self.chance {
                let u = rand_u32(rng) as i64;
                let step = fx_mul(self.coeff, u);
                let delta = if sign_negative {
                    fx_neg(step)
                } else {
                    step
                };
                let before = child.gene(i);
                let after = fx_add(before, delta);
                proof {
                    assert(fx_mul_spec(self.coeff as int, u as int) == step as int);
                    assert(perturbed(before, after, self.coeff));
                }
                child.set_gene(i, after);
            }
            i += 1;
        }
    }
}

/// Fitness statistics of one generation, computed over the population
/// that is about to be replaced. The average is rounded down.
#[derive(Debug, Clone, Copy, PartialEq, Eq, Structural)]
pub struct Statistics {
    min_fitness: u32,
    max_fitness: u32,
    avg_fitness: u32,
}

impl Statistics {
    /// The least fitness, at the specification level.
    pub closed spec fn min_spec(&self) -> u32 {
        self.min_fitness
    }

    /// The greatest fitness, at the specification level.
    pub closed spec fn max_spec(&self) -> u32 {
        self.max_fitness
    }

    /// The rounded-down mean fitness, at the specification level.
    pub closed spec fn avg_spec(&self) -> u32 {
        self.avg_fitness
    }

    fn new<I: Individual>(population: &Vec<I>) -> (r: Statistics)
        requires
            population@.len() > 0,
        ensures
            r.min_spec() == min_fitness_of(population@),
            r.max_spec() == max_fitness_of(population@),
            r.avg_spec() == sum_fitness(population@) / (population@.len() as int),
    {
        let n = population.len();
        let mut min_f: u32 = population[0].fitness();
        let mut max_f: u32 = min_f;
        let mut sum_f: u128 = min_f as u128;
        proof {
            assert(population@.take(1).len() == 1);
            assert(population@.take(1)[0] == population@[0]);
            assert(population@.take(1).last() == population@[0]);
            assert(population@.take(1).drop_last() =~= Seq::<I>::empty());
            assert(min_fitness_of(population@.take(1)) == population@[0].fitness_spec());
            assert(max_fitness_of(Seq::<I>::empty()) == 0);
            assert(sum_fitness(Seq::<I>::empty()) == 0);
            assert(max_fitness_of(population@.take(1)) == population@[0].fitness_spec());
            assert(sum_fitness(population@.take(1)) == population@[0].fitness_spec());
        }
        let mut i: usize = 1;
        while i < n
            invariant
                n == population@.len(),
                0 < n,
                1 <= i <= n,
                min_f == min_fitness_of(population@.take(i as int)),
                max_f == max_fitness_of(population@.take(i as int)),
                sum_f == sum_fitness(population@.take(i as int)),
                sum_f <= i * (u32::MAX as int),
            decreases n - i,
        {
            let f = population[i].fitness();
            proof {
                assert(population@.take(i + 1).drop_last() =~= population@.take(i as int));
                assert(population@.take(i + 1).last() == population@[i as int]);
            }
            if f < min_f {
                min_f = f;
            }
            if f > max_f {
                max_f = f;
            }
            sum_f = sum_f + f as u128;
            i += 1;
        }
        proof {
            assert(population@.take(n as int) =~= population@);
            vstd::arithmetic::div_mod::lemma_div_is_ordered(
                sum_f as int,
                (u32::MAX as int) * (n as int),
                n as int,
            );
            vstd::arithmetic::div_mod::lemma_div_by_multiple(u32::MAX as int, n as int);
        }
        let avg_f = (sum_f / (n as u128)) as u32;
        Statistics { min_fitness: min_f, max_fitness: max_f, avg_fitness: avg_f }
    }

    /// The least fitness in the reported generation.
    pub fn min_fitness(&self) -> (r: u32)
        ensures
            r == self.min_spec(),
    {
        self.min_fitness
    }

    /// The greatest fitness in the reported generation.
    pub fn max_fitness(&self) -> (r: u32)
        ensures
            r == self.max_spec(),
    {
        self.max_fitness
    }

    /// The mean fitness in the reported generation, rounded down.
    pub fn avg_fitness(&self) -> (r: u32)
        ensures
            r == self.avg_spec(),
    {
        self.avg_fitness
    }
}

/// The orchestrator: selection, crossover and mutation strategies applied
/// generation by generation to any population of individuals.
#[derive(Debug, Clone, Copy)]
pub struct GeneticAlgorithm<S, C, M> {
    selection_method: S,
    crossover_method: C,
    mutation_method: M,
}

impl<S: SelectionMethod, C: CrossoverMethod, M: MutationMethod> GeneticAlgorithm<S, C, M> {
    /// The configured selection strategy.
    pub closed spec fn selection_spec(&self) -> S {
        self.selection_method
    }

    /// The configured crossover strategy.
    pub closed spec fn crossover_spec(&self) -> C {
        self.crossover_method
    }

    /// The configured mutation strategy.
    pub closed spec fn mutation_spec(&self) -> M {
        self.mutation_method
    }

    pub fn new(selection_method: S, crossover_method: C, mutation_method: M) -> (r: Self)
        ensures
            r.selection_spec() == selection_method,
            r.crossover_spec() == crossover_method,
            r.mutation_spec() == mutation_method,
    {
        GeneticAlgorithm { selection_method, crossover_method, mutation_method }
    }

    /// Replace a whole generation: for each slot, select two parents by
    /// fitness, cross their chromosomes, mutate the child and materialize
    /// a new individual from it. Returns the new population, of the same
    /// size as the old one, together with statistics over the replaced
    /// generation.
    pub fn evolve<I: Individual>(
        &self,
        rng: &mut rand::rngs::StdRng,
        population: &Vec<I>,
    ) -> (r: (Vec<I>, Statistics))
        requires
            population@.len() > 0,
            sum_fitness(population@) <= u32::MAX as int,
            forall|i: int| 0 <= i < population@.len() ==>
                (#[trigger] population@[i].chromosome_spec()).len()
                    == population@[0].chromosome_spec().len(),
        ensures
            r.0@.len() == population@.len(),
            forall|i: int| 0 <= i < r.0@.len() ==>
                (#[trigger] r.0@[i].chromosome_spec()).len()
                    == population@[0].chromosome_spec().len(),
            forall|i: int| 0 <= i < r.0@.len() ==> offspring_of(
                self.crossover_spec(),
                self.mutation_spec(),
                population@,
                (#[trigger] r.0@[i]).chromosome_spec(),
            ),
            r.1.min_spec() == min_fitness_of(population@),
            r.1.max_spec() == max_fitness_of(population@),
            r.1.avg_spec() == sum_fitness(population@) / (population@.len() as int),
    {
        let ghost m = population@[0].chromosome_spec().len();
        let n = population.len();
        let mut new_population: Vec<I> = Vec::new();
        let mut k: usize = 0;
        while k < n
            invariant
                n == population@.len(),
                0 < n,
                sum_fitness(population@) <= u32::MAX as int,
                forall|i: int| 0 <= i < population@.len() ==>
                    (#[trigger] population@[i].chromosome_spec()).len() == m,
                k <= n,
                new_population@.len() == k,
                forall|i: int| 0 <= i < k ==>
                    (#[trigger] new_population@[i].chromosome_spec()).len() == m,
                forall|i: int| 0 <= i < k ==> offspring_of(
                    self.crossover_spec(),
                    self.mutation_spec(),
                    population@,
                    (#[trigger] new_population@[i]).chromosome_spec(),
                ),
            decreases n - k,
        {
            let parent_a = match self.selection_method.select(rng, population) {
                Ok(p) => p,
                Err(_) => unreached(),
            };
            let parent_b = match self.selection_method.select(rng, population) {
                Ok(p) => p,
                Err(_) => unreached(),
            };
            let mut child = match self.crossover_method.crossover(
                rng,
                parent_a.chromosome(),
                parent_b.chromosome(),
            ) {
                Ok(c) => c,
                Err(_) => unreached(),
            };
            let ghost pa = choose|i: int|
                0 <= i < population@.len() && *parent_a == population@[i];
            let ghost pb = choose|i: int|
                0 <= i < population@.len() && *parent_b == population@[i];
            let ghost mid = child@;
            self.mutation_method.mutate(rng, &mut child);
            proof {
                assert(self.crossover_spec().crossover_rel(
                    population@[pa].chromosome_spec(),
                    population@[pb].chromosome_spec(),
                    mid,
                ));
                assert(self.mutation_spec().mutate_rel(mid, child@));
            }
            let offspring = I::create(child);
            new_population.push(offspring);
            proof {
                assert(offspring_of(
                    self.crossover_spec(),
                    self.mutation_spec(),
                    population@,
                    offspring.chromosome_spec(),
                ));
            }
            k += 1;
        }
        let stats = Statistics::new(population);
        (new_population, stats)
    }
}

} // verus!
