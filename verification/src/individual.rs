//! Individuals: the animals as the optimizer sees them.
//!
//! An individual lives for one change of generation. It is made of an
//! animal before the optimizer runs, or by the optimizer as the offspring of
//! others, and becomes a newborn animal afterwards.

use vstd::prelude::*;
use rand::rngs::StdRng;
use crate::animal::Animal;
use crate::animal::AnimalView;
use crate::brain::topology_spec;
use crate::brain::BrainView;
use crate::brain::Gene;
use crate::eye::EyeView;
use crate::eye::CELLS;

verus! {

/// One animal as the optimizer sees it: how well it did, and its genome.
pub struct AnimalIndividual {
    fitness: usize,
    chromosome: Vec<Gene>,
}

/// What an individual is: its fitness, which is the number of food items
/// that the animal has eaten, and its genome.
pub struct IndividualView {
    pub fitness: nat,
    pub chromosome: Seq<Gene>,
}

impl View for AnimalIndividual {
    type V = IndividualView;

    closed spec fn view(&self) -> IndividualView {
        IndividualView { fitness: self.fitness as nat, chromosome: self.chromosome@ }
    }
}

impl AnimalIndividual {
    /// The individual that stands for `animal`.
    pub fn from_animal(animal: &Animal) -> (individual: AnimalIndividual)
        ensures
            individual@ == (IndividualView {
                fitness: animal@.satiation,
                chromosome: animal@.brain.chromosome,
            }),
    {
        AnimalIndividual { fitness: animal.satiation(), chromosome: animal.as_chromosome() }
    }

    /// A newborn animal with this individual's genome, at a place and with a
    /// heading drawn from `rng`.
    pub fn into_animal(self, rng: &mut StdRng) -> (animal: Animal)
        ensures
            animal.wf(),
            animal@ == AnimalView::born(
                EyeView::standard(),
                BrainView { layers: topology_spec(CELLS as nat), chromosome: self@.chromosome },
                animal@.position,
                animal@.rotation,
            ),
    {
        Animal::from_chromosome(self.chromosome, rng)
    }

    /// An individual with the given genome that has not been tried yet.
    pub fn create(chromosome: Vec<Gene>) -> (individual: AnimalIndividual)
        ensures
            individual@ == (IndividualView { fitness: 0, chromosome: chromosome@ }),
    {
        AnimalIndividual { fitness: 0, chromosome }
    }

    pub fn chromosome(&self) -> (chromosome: &Vec<Gene>)
        ensures
            chromosome@ == self@.chromosome,
    {
        &self.chromosome
    }

    pub fn fitness(&self) -> (fitness: usize)
        ensures
            fitness == self@.fitness,
    {
        self.fitness
    }
}

} // verus!
