//! The brain: what turns a vision into a change of speed and heading.
//!
//! The network itself is evaluated outside this library. A brain here is what
//! the simulation has to know of it: the sizes of its layers, which follow
//! from the eye that feeds it, and its weights as one flat genome.

use vstd::prelude::*;
use crate::eye::Eye;

verus! {

/// One scalar of a genome, in the evaluator's own encoding: the bit pattern
/// of a single-precision IEEE 754 number. The simulation stores genes,
/// copies them and hands them over; it never computes with them.
pub type Gene = u32;

/// The size of one layer of a network.
#[derive(Clone, Copy, Debug, PartialEq, Eq, Structural)]
pub struct LayerTopology {
    pub neurons: usize,
}

/// A brain: the sizes of its layers and its genome.
pub struct Brain {
    topology: [LayerTopology; 3],
    chromosome: Vec<Gene>,
}

/// What a brain is: the sizes of its layers, from input to output, and its
/// genome.
pub struct BrainView {
    pub layers: Seq<nat>,
    pub chromosome: Seq<Gene>,
}

/// The layers of the brain behind an eye of `cells` cells: one input per
/// cell, a hidden layer twice as large, and two outputs, the change of speed
/// and the change of heading.
pub open spec fn topology_spec(cells: nat) -> Seq<nat> {
    seq![cells, 2 * cells, 2]
}

impl View for Brain {
    type V = BrainView;

    closed spec fn view(&self) -> BrainView {
        BrainView {
            layers: Seq::new(3, |i: int| self.topology@[i].neurons as nat),
            chromosome: self.chromosome@,
        }
    }
}

impl Brain {
    /// The brain with the given genome, behind the given eye.
    pub fn from_chromosome(chromosome: Vec<Gene>, eye: &Eye) -> (brain: Brain)
        requires
            2 * eye@.cells <= usize::MAX,
        ensures
            brain@.layers == topology_spec(eye@.cells),
            brain@.chromosome == chromosome@,
    {
        let brain = Brain { topology: Self::topology(eye), chromosome };
        assert(brain@.layers =~= topology_spec(eye@.cells));
        brain
    }

    /// The genome of this brain.
    pub fn as_chromosome(&self) -> (chromosome: Vec<Gene>)
        ensures
            chromosome@ == self@.chromosome,
    {
        let chromosome = self.chromosome.clone();
        assert(chromosome@ =~= self.chromosome@);
        chromosome
    }

    /// The sizes of this brain's layers, from input to output.
    pub fn layers(&self) -> (layers: [LayerTopology; 3])
        ensures
            self@.layers.len() == 3,
            forall|i: int| 0 <= i < 3 ==> (#[trigger] layers@[i]).neurons == self@.layers[i],
    {
        self.topology
    }

    /// The sizes of the layers of the brain behind `eye`.
    pub fn topology(eye: &Eye) -> (layers: [LayerTopology; 3])
        requires
            2 * eye@.cells <= usize::MAX,
        ensures
            forall|i: int|
                0 <= i < 3 ==> (#[trigger] layers@[i]).neurons == topology_spec(eye@.cells)[i],
    {
        let layers = [
            LayerTopology { neurons: eye.cells() },
            LayerTopology { neurons: 2 * eye.cells() },
            LayerTopology { neurons: 2 },
        ];
        layers
    }
}

} // verus!
