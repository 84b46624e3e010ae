//! Organisms: clusters of agents that share a genome and a controller.

use crate::genome::Genome;
use crate::genome::lemma_segment_starts;
use crate::nn::NeuralNet;
use vstd::prelude::*;

verus! {

/// One organism. `body` carries its continuous state (boundary integrity,
/// metabolic pools, maturity), which this crate stores and moves but never
/// reads.
#[derive(Debug)]
pub struct Organism<T, O> {
    /// Position in the world's organism array, cut to 16 bits; changes on
    /// compaction.
    pub id: u16,
    /// Identity assigned at birth, never reused.
    pub stable_id: u64,
    /// 0 for founders, one more than the parent's otherwise.
    pub generation: u32,
    /// Steps lived.
    pub age_steps: usize,
    /// Cleared at death and never set again.
    pub alive: bool,
    /// Identities of the agents that the organism owns.
    pub agent_ids: Vec<u32>,
    /// Stable identity of the parent; `None` for founders.
    pub parent_stable_id: Option<u64>,
    /// Current genome.
    pub genome: Genome<T>,
    /// Genome of the founder at the root of the lineage.
    pub ancestor_genome: Genome<T>,
    /// Controller decoded from the genome's neural segment.
    pub nn: NeuralNet<T>,
    /// Continuous state.
    pub body: O,
}

/// What a world is told of each founder.
#[derive(Debug)]
pub struct Founder<T, O> {
    /// The founder's controller; its genome is built from these weights.
    pub nn: NeuralNet<T>,
    /// The founder's continuous state.
    pub body: O,
}

impl<T: Copy, O> Organism<T, O> {
    /// `self` and `other` agree in everything but their array index and the
    /// list of agents they own.
    pub open spec fn same_but_links(&self, other: &Self) -> bool {
        &&& self.stable_id == other.stable_id
        &&& self.generation == other.generation
        &&& self.age_steps == other.age_steps
        &&& self.alive == other.alive
        &&& self.parent_stable_id == other.parent_stable_id
        &&& self.genome == other.genome
        &&& self.ancestor_genome == other.ancestor_genome
        &&& self.nn == other.nn
        &&& self.body == other.body
    }

    /// `self` and `other` agree in everything but their current genome.
    pub open spec fn same_but_genome(&self, other: &Self) -> bool {
        &&& self.id == other.id
        &&& self.stable_id == other.stable_id
        &&& self.generation == other.generation
        &&& self.age_steps == other.age_steps
        &&& self.alive == other.alive
        &&& self.agent_ids == other.agent_ids
        &&& self.parent_stable_id == other.parent_stable_id
        &&& self.ancestor_genome == other.ancestor_genome
        &&& self.nn == other.nn
        &&& self.body == other.body
    }

    /// Both genomes have the seven-segment layout.
    pub open spec fn genomes_wf(&self) -> bool {
        self.genome.wf() && self.ancestor_genome.wf()
    }
}

/// The weights that a child's controller is decoded from: the neural segment
/// of its genome where that holds exactly 212 values, the parent's weights
/// otherwise.
pub open spec fn child_weights<T: Copy>(genome: &Genome<T>, parent: &NeuralNet<T>) -> Seq<T> {
    if genome.nn_len() == 212 {
        genome.segment(0)
    } else {
        parent.weights()
    }
}

/// Decodes the controller of a child with genome `genome` whose parent has
/// the controller `parent`.
pub fn controller_for<T: Copy>(genome: &Genome<T>, parent: &NeuralNet<T>) -> (net: NeuralNet<T>)
    requires
        genome.wf(),
    ensures
        net.weights() == child_weights(genome, parent),
{
    proof {
        lemma_segment_starts(genome.nn_len());
    }
    let weights = genome.nn_weights();
    if weights.len() == 212 {
        let net = NeuralNet::from_weights(weights);
        net
    } else {
        let flat = parent.to_weight_vec();
        let net = NeuralNet::from_weights(flat.as_slice());
        net
    }
}

} // verus!
