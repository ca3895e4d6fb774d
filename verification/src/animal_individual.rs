//! The adapter that lets the genetic algorithm evolve agents without
//! knowing about simulation concepts: fitness is the satiation counter,
//! the chromosome is the brain's flattened weights.

use vstd::prelude::*;

use crate::eye::Eye;
use crate::genetics::{Chromosome, Individual};
use crate::network::{param_count, LayerTopology, Network};
use crate::rng::{rand_below, rand_u32};
use crate::world::{brain_topo, Animal};
use crate::{SPEED_DEFAULT, TWO_PI_FX};

verus! {

use vstd::pervasive::unreached;

/// An agent reduced to what the genetic algorithm needs: a score and a
/// gene vector.
#[derive(Debug)]
pub struct AnimalIndividual {
    fitness: u32,
    chromosome: Chromosome,
}

impl Individual for AnimalIndividual {
    closed spec fn fitness_spec(&self) -> u32 {
        self.fitness
    }

    closed spec fn chromosome_spec(&self) -> Seq<i64> {
        self.chromosome@
    }

    fn fitness(&self) -> (r: u32) {
        self.fitness
    }

    fn chromosome(&self) -> (r: &Chromosome) {
        &self.chromosome
    }

    fn create(chromosome: Chromosome) -> (r: Self) {
        AnimalIndividual { fitness: 0, chromosome }
    }
}

impl AnimalIndividual {
    /// Project an agent onto the genetic algorithm's view of it.
    pub fn from_animal<E: Eye>(animal: &Animal<E>) -> (r: AnimalIndividual)
        ensures
            r.fitness_spec() == animal.satiation,
            r.chromosome_spec() == animal.brain.encoding(),
    {
        AnimalIndividual {
            fitness: animal.satiation,
            chromosome: Chromosome::from_genes(animal.brain.weights()),
        }
    }

    /// Materialize a fresh agent from an evolved chromosome: the brain is
    /// decoded against the run topology, everything else is reset (random
    /// pose, default speed, zero satiation).
    pub fn into_animal<E: Eye>(self, rng: &mut rand::rngs::StdRng, eye: &E) -> (r: Animal<E>)
        requires
            self.chromosome_spec().len() == param_count(brain_topo(eye.cells_spec())),
        ensures
            r.wf(),
            r.satiation == 0,
            r.speed == SPEED_DEFAULT,
            0 <= r.rotation < TWO_PI_FX,
            r.eye.cells_spec() == eye.cells_spec(),
            r.brain.encoding() == self.chromosome_spec(),
    {
        let ghost chrom = self.chromosome_spec();
        let own_eye = eye.fresh();
        let cells = own_eye.cells();
        let topology: Vec<LayerTopology> = vec![
            LayerTopology { neurons: cells },
            LayerTopology { neurons: 2 * cells },
            LayerTopology { neurons: 2 },
        ];
        proof {
            assert(crate::network::topo_view(topology@) =~= brain_topo(own_eye.cells_spec()));
        }
        let genes = self.chromosome.into_genes();
        let brain = match Network::from_weights(&topology, &genes) {
            Ok(b) => b,
            Err(_) => unreached(),
        };
        let x = rand_u32(rng);
        let y = rand_u32(rng);
        let rotation = rand_below(rng, TWO_PI_FX as u64) as i64;
        Animal {
            x,
            y,
            rotation,
            speed: SPEED_DEFAULT,
            satiation: 0,
            brain,
            eye: own_eye,
        }
    }
}

} // verus!
