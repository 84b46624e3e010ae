//! The discrete part of a simulation's configuration.

use vstd::prelude::*;

verus! {

/// Upper bound on the number of agents that a world holds at any time.
pub const MAX_TOTAL_AGENTS: usize = 250_000;

/// Which metabolism engine drives the organisms.
#[derive(Clone, Copy, Debug, PartialEq, Eq, Structural)]
pub enum MetabolismMode {
    /// One engine shared by all organisms, fed by the resource field.
    Toy,
    /// One shared engine with fixed increments.
    Counter,
    /// One engine per organism, decoded from its genome.
    Graph,
}

impl MetabolismMode {
    /// Whether each organism carries an engine of its own.
    pub fn per_organism(&self) -> (b: bool)
        ensures
            b == (*self == MetabolismMode::Graph),
    {
        match self {
            MetabolismMode::Graph => true,
            MetabolismMode::Toy => false,
            MetabolismMode::Counter => false,
        }
    }
}

/// Counts, periods and switches of a simulation. The continuous parameters
/// (rates, thresholds, radii) belong to the caller.
#[derive(Clone, Copy, Debug, PartialEq, Eq, Structural)]
pub struct SimConfig {
    /// Number of founder organisms.
    pub num_organisms: usize,
    /// Number of agents of each founder.
    pub agents_per_organism: usize,
    /// Seed of the main random stream.
    pub seed: u64,
    /// Steps an organism needs to mature.
    pub growth_maturation_steps: usize,
    /// Least number of agents that a child is born with.
    pub reproduction_child_min_agents: usize,
    /// Age beyond which an organism dies.
    pub max_organism_age_steps: usize,
    /// Steps between two scheduled compactions.
    pub compaction_interval_steps: usize,
    /// Step at which the regeneration rate shifts; 0 for never.
    pub environment_shift_step: usize,
    /// Length of one phase of the regeneration cycle; 0 for no cycle.
    pub environment_cycle_period: usize,
    /// Engine selection.
    pub metabolism_mode: MetabolismMode,
    /// Agents respond to their controller's velocity output.
    pub enable_response: bool,
    /// Agents integrate their controller's homeostasis output.
    pub enable_homeostasis: bool,
    /// Boundaries decay and are repaired.
    pub enable_boundary_maintenance: bool,
    /// Organisms metabolise.
    pub enable_metabolism: bool,
    /// Organisms mature.
    pub enable_growth: bool,
    /// Organisms reproduce.
    pub enable_reproduction: bool,
    /// Child genomes are mutated.
    pub enable_evolution: bool,
    /// A second neighbour query runs each step with no effect on state.
    pub enable_sham_process: bool,
}

/// A count of the configuration that no simulation can run with.
#[derive(Clone, Copy, Debug, PartialEq, Eq, Structural)]
pub enum CountError {
    /// There are no organisms, or a founder has no agents.
    EmptyPopulation,
    /// `growth_maturation_steps` is zero.
    InvalidMaturationSteps,
}

impl SimConfig {
    /// The first count, if any, that no simulation can run with: an empty
    /// population comes before a maturation in zero steps.
    pub open spec fn spec_count_error(&self) -> Option<CountError> {
        if self.num_organisms == 0 || self.agents_per_organism == 0 {
            Some(CountError::EmptyPopulation)
        } else if self.growth_maturation_steps == 0 {
            Some(CountError::InvalidMaturationSteps)
        } else {
            None
        }
    }

    /// The first count, if any, that no simulation can run with.
    pub fn count_error(&self) -> (e: Option<CountError>)
        ensures
            e == self.spec_count_error(),
    {
        if self.num_organisms == 0 || self.agents_per_organism == 0 {
            Some(CountError::EmptyPopulation)
        } else if self.growth_maturation_steps == 0 {
            Some(CountError::InvalidMaturationSteps)
        } else {
            None
        }
    }

    /// Number of agents that a child is born with: half of a founder's, but
    /// at least the configured minimum.
    pub open spec fn spec_child_agent_count(&self) -> nat {
        if self.agents_per_organism / 2 >= self.reproduction_child_min_agents {
            (self.agents_per_organism / 2) as nat
        } else {
            self.reproduction_child_min_agents as nat
        }
    }

    /// Number of agents that a child is born with.
    pub fn child_agent_count(&self) -> (n: usize)
        ensures
            n == self.spec_child_agent_count(),
    {
        let half: usize = self.agents_per_organism / 2;
        if half >= self.reproduction_child_min_agents {
            half
        } else {
            self.reproduction_child_min_agents
        }
    }

    /// Number of founder agents, where the product fits the machine word.
    pub fn founder_agent_count(&self) -> (n: Option<usize>)
        ensures
            n is Some <==> self.num_organisms * self.agents_per_organism <= usize::MAX,
            n is Some ==> n.unwrap() == self.num_organisms * self.agents_per_organism,
    {
        self.num_organisms.checked_mul(self.agents_per_organism)
    }
}

/// Why a configuration was rejected, as reported by whoever validated its
/// continuous parameters.
#[derive(Clone, Debug, PartialEq, Eq)]
pub struct SimConfigError {
    /// The reason, ready to be shown.
    pub reason: String,
}

} // verus!
