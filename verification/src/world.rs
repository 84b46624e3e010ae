//! The world: agents, organisms and the counters of a run.

pub mod environment;
pub mod experiment;
pub mod laws;
pub mod lifecycle;
pub mod metrics;
pub mod reproduction;

use crate::agent::lemma_max_agent_id_bounds;
use crate::agent::lemma_owned_ids_same_links;
use crate::agent::max_agent_id;
use crate::agent::owned_ids;
use crate::agent::same_links;
use crate::agent::Agent;
use crate::config::SimConfig;
use crate::config::SimConfigError;
use crate::config::MAX_TOTAL_AGENTS;
use crate::genome::segment_len;
use crate::genome::Genome;
use crate::organism::Founder;
use crate::organism::Organism;
use crate::text::decimal;
use crate::text::decimal_text;
use crate::world::metrics::LineageEvent;
use vstd::prelude::*;
use vstd::string::StringExecFns;

verus! {

/// Most steps that one experiment may run.
pub const MAX_EXPERIMENT_STEPS: usize = 1_000_000;

/// Most samples that one experiment may record.
pub const MAX_EXPERIMENT_SAMPLES: usize = 50_000;

/// Why a world could not be created or reconfigured.
#[derive(Debug, Clone, PartialEq)]
pub enum WorldInitError {
    /// The continuous parameters were rejected.
    Config(SimConfigError),
    /// `num_organisms * agents_per_organism` exceeds the machine word.
    AgentCountOverflow,
    /// More founder agents than a world may hold.
    TooManyAgents { max: usize, actual: usize },
    /// The number of organisms differs from the configured one.
    NumOrganismsMismatch { expected: usize, actual: usize },
    /// The number of agents differs from the configured one.
    AgentCountMismatch { expected: usize, actual: usize },
    /// An agent names an organism that does not exist.
    InvalidOrganismId,
}

/// Why an experiment was refused before its first step.
#[derive(Debug, Clone, Copy, PartialEq, Eq, Structural)]
pub enum ExperimentError {
    /// `sample_every` was zero.
    InvalidSampleEvery,
    /// More steps than an experiment may run.
    TooManySteps { max: usize, actual: usize },
    /// More samples than an experiment may record.
    TooManySamples { max: usize, actual: usize },
}

impl From<SimConfigError> for WorldInitError {
    fn from(err: SimConfigError) -> (e: WorldInitError) {
        WorldInitError::Config(err)
    }
}

impl vstd::std_specs::convert::FromSpecImpl<SimConfigError> for WorldInitError {
    open spec fn obeys_from_spec() -> bool {
        true
    }

    open spec fn from_spec(err: SimConfigError) -> WorldInitError {
        WorldInitError::Config(err)
    }
}

impl WorldInitError {
    /// The text of the error.
    pub open spec fn message_text(&self) -> Seq<char> {
        match self {
            WorldInitError::Config(e) => e.reason@,
            WorldInitError::AgentCountOverflow => {
                "num_organisms * agents_per_organism overflows usize"@
            },
            WorldInitError::TooManyAgents { max, actual } => "total agents ("@ + decimal_text(
                *actual as nat,
            ) + ") exceeds supported maximum ("@ + decimal_text(*max as nat) + ")"@,
            WorldInitError::NumOrganismsMismatch { expected, actual } => "num_organisms ("@
                + decimal_text(*expected as nat) + ") must match nns.len() ("@ + decimal_text(
                *actual as nat,
            ) + ")"@,
            WorldInitError::AgentCountMismatch { expected, actual } => "agents.len() ("@
                + decimal_text(*actual as nat)
                + ") must match num_organisms * agents_per_organism ("@ + decimal_text(
                *expected as nat,
            ) + ")"@,
            WorldInitError::InvalidOrganismId => {
                "all agent organism_ids must be valid indices into nns"@
            },
        }
    }

    /// The text of the error, for display.
    pub fn message(&self) -> (s: String)
        ensures
            s@ == self.message_text(),
    {
        match self {
            WorldInitError::Config(e) => e.reason.clone(),
            WorldInitError::AgentCountOverflow => String::from_str(
                "num_organisms * agents_per_organism overflows usize",
            ),
            WorldInitError::TooManyAgents { max, actual } => {
                let mut s = String::from_str("total agents (");
                s.append(decimal(*actual).as_str());
                s.append(") exceeds supported maximum (");
                s.append(decimal(*max).as_str());
                s.append(")");
                s
            },
            WorldInitError::NumOrganismsMismatch { expected, actual } => {
                let mut s = String::from_str("num_organisms (");
                s.append(decimal(*expected).as_str());
                s.append(") must match nns.len() (");
                s.append(decimal(*actual).as_str());
                s.append(")");
                s
            },
            WorldInitError::AgentCountMismatch { expected, actual } => {
                let mut s = String::from_str("agents.len() (");
                s.append(decimal(*actual).as_str());
                s.append(") must match num_organisms * agents_per_organism (");
                s.append(decimal(*expected).as_str());
                s.append(")");
                s
            },
            WorldInitError::InvalidOrganismId => String::from_str(
                "all agent organism_ids must be valid indices into nns",
            ),
        }
    }

    /// The configuration error behind this one, if that is what it is.
    pub fn source(&self) -> (r: Option<&SimConfigError>)
        ensures
            r == match self {
                WorldInitError::Config(e) => Some(e),
                _ => None::<&SimConfigError>,
            },
    {
        match self {
            WorldInitError::Config(e) => Some(e),
            _ => None,
        }
    }
}

impl ExperimentError {
    /// The text of the error.
    pub open spec fn message_text(&self) -> Seq<char> {
        match self {
            ExperimentError::InvalidSampleEvery => "sample_every must be positive"@,
            ExperimentError::TooManySteps { max, actual } => "steps ("@ + decimal_text(
                *actual as nat,
            ) + ") exceed supported maximum ("@ + decimal_text(*max as nat) + ")"@,
            ExperimentError::TooManySamples { max, actual } => "sample count ("@ + decimal_text(
                *actual as nat,
            ) + ") exceeds supported maximum ("@ + decimal_text(*max as nat) + ")"@,
        }
    }

    /// The text of the error, for display.
    pub fn message(&self) -> (s: String)
        ensures
            s@ == self.message_text(),
    {
        match self {
            ExperimentError::InvalidSampleEvery => String::from_str(
                "sample_every must be positive",
            ),
            ExperimentError::TooManySteps { max, actual } => {
                let mut s = String::from_str("steps (");
                s.append(decimal(*actual).as_str());
                s.append(") exceed supported maximum (");
                s.append(decimal(*max).as_str());
                s.append(")");
                s
            },
            ExperimentError::TooManySamples { max, actual } => {
                let mut s = String::from_str("sample count (");
                s.append(decimal(*actual).as_str());
                s.append(") exceeds supported maximum (");
                s.append(decimal(*max).as_str());
                s.append(")");
                s
            },
        }
    }
}

/// The state of a world as contracts see it.
pub struct WorldView<T, A, O> {
    /// The agents, in their order.
    pub agents: Seq<Agent<A>>,
    /// The organisms, in their order, dead ones included.
    pub organisms: Seq<Organism<T, O>>,
    /// The configuration in force.
    pub config: SimConfig,
    /// The identity that the next agent gets.
    pub next_agent_id: u32,
    /// The stable identity that the next organism gets.
    pub next_organism_stable_id: u64,
    /// Number of steps begun so far.
    pub step_index: usize,
    /// Births during the current step.
    pub births_last_step: usize,
    /// Deaths during the current step.
    pub deaths_last_step: usize,
    /// Births since the world was created.
    pub total_births: usize,
    /// Deaths since the world was created.
    pub total_deaths: usize,
    /// Reproductions refused during the current step for want of agent
    /// identities.
    pub agent_id_exhaustions_last_step: usize,
    /// Reproductions refused since the world was created for want of agent
    /// identities.
    pub total_agent_id_exhaustions: usize,
    /// Ages at death, in the order of the deaths.
    pub lifespans: Seq<usize>,
    /// Births, in their order.
    pub lineage_events: Seq<LineageEvent>,
}

impl<T: Copy, A, O> WorldView<T, A, O> {
    /// Every agent names an organism of the array.
    pub open spec fn links_in_range(&self) -> bool {
        forall|i: int|
            0 <= i < self.agents.len() ==> (#[trigger] self.agents[i]).organism_id
                < self.organisms.len()
    }

    /// Every organism records its own index, cut to 16 bits, and exactly the
    /// agents that name it, in agent order.
    pub open spec fn organisms_indexed(&self) -> bool {
        forall|k: int|
            0 <= k < self.organisms.len() ==> {
                &&& (#[trigger] self.organisms[k]).id == k as u16
                &&& self.organisms[k].agent_ids@ == owned_ids(self.agents, k)
                &&& self.organisms[k].genomes_wf()
            }
    }

    /// No agent carries an identity that is still to be handed out.
    pub open spec fn agent_ids_allocated(&self) -> bool {
        forall|i: int|
            0 <= i < self.agents.len() ==> (#[trigger] self.agents[i]).id < self.next_agent_id
                || self.next_agent_id == u32::MAX
    }

    /// No organism carries a stable identity that is still to be handed out.
    pub open spec fn stable_ids_allocated(&self) -> bool {
        forall|k: int|
            0 <= k < self.organisms.len() ==> (#[trigger] self.organisms[k]).stable_id
                < self.next_organism_stable_id || self.next_organism_stable_id == u64::MAX
    }

    /// The invariant of a world.
    pub open spec fn wf(&self) -> bool {
        &&& self.agents.len() <= MAX_TOTAL_AGENTS
        &&& self.links_in_range()
        &&& self.organisms_indexed()
        &&& self.agent_ids_allocated()
        &&& self.stable_ids_allocated()
        &&& self.births_last_step <= self.total_births
        &&& self.deaths_last_step <= self.total_deaths
        &&& self.agent_id_exhaustions_last_step <= self.total_agent_id_exhaustions
    }

    /// The first reason, if any, for which `config` does not fit the
    /// organisms and agents of this world.
    pub open spec fn reconfig_error(&self, config: SimConfig) -> Option<WorldInitError> {
        let expected = config.num_organisms * config.agents_per_organism;
        if config.num_organisms != self.organisms.len() {
            Some(
                WorldInitError::NumOrganismsMismatch {
                    expected: config.num_organisms,
                    actual: self.organisms.len() as usize,
                },
            )
        } else if expected > usize::MAX {
            Some(WorldInitError::AgentCountOverflow)
        } else if self.agents.len() != expected {
            Some(
                WorldInitError::AgentCountMismatch {
                    expected: expected as usize,
                    actual: self.agents.len() as usize,
                },
            )
        } else {
            None
        }
    }

    /// Number of organisms among the first `upto` that are alive.
    pub open spec fn alive_before(&self, upto: int) -> nat
        decreases upto,
    {
        if upto <= 0 {
            0
        } else {
            self.alive_before(upto - 1) + if self.organisms[upto - 1].alive {
                1nat
            } else {
                0nat
            }
        }
    }

    /// Number of organisms that are alive.
    pub open spec fn alive_count(&self) -> nat {
        self.alive_before(self.organisms.len() as int)
    }

    /// The state of a world just created from `agents` and `founders`.
    pub open spec fn founded(
        &self,
        agents: Seq<Agent<A>>,
        founders: Seq<Founder<T, O>>,
        fill: T,
        config: SimConfig,
    ) -> bool {
        &&& self.agents == agents
        &&& self.organisms.len() == founders.len()
        &&& forall|k: int|
            0 <= k < founders.len() ==> {
                &&& (#[trigger] self.organisms[k]).stable_id == k
                &&& self.organisms[k].generation == 0
                &&& self.organisms[k].age_steps == 0
                &&& self.organisms[k].alive
                &&& self.organisms[k].parent_stable_id is None
                &&& self.organisms[k].nn == founders[k].nn
                &&& self.organisms[k].body == founders[k].body
                &&& self.organisms[k].genome@ == founders[k].nn.weights() + Seq::new(
                    44,
                    |i: int| fill,
                )
                &&& self.organisms[k].ancestor_genome@ == self.organisms[k].genome@
            }
        &&& self.config == config
        &&& self.next_agent_id == if max_agent_id(agents) < u32::MAX {
            max_agent_id(agents) + 1
        } else {
            u32::MAX as nat
        }
        &&& self.next_organism_stable_id == founders.len()
        &&& self.step_index == 0
        &&& self.births_last_step == 0
        &&& self.deaths_last_step == 0
        &&& self.total_births == 0
        &&& self.total_deaths == 0
        &&& self.agent_id_exhaustions_last_step == 0
        &&& self.total_agent_id_exhaustions == 0
        &&& self.lifespans == Seq::<usize>::empty()
        &&& self.lineage_events == Seq::<LineageEvent>::empty()
    }
}

/// The first reason, if any, for which `agents` and `organism_count`
/// organisms do not make up a world under `config`.
pub open spec fn init_error<A>(agents: Seq<Agent<A>>, organism_count: nat, config: SimConfig)
    -> Option<WorldInitError> {
    let expected = config.num_organisms * config.agents_per_organism;
    if config.num_organisms != organism_count {
        Some(
            WorldInitError::NumOrganismsMismatch {
                expected: config.num_organisms,
                actual: organism_count as usize,
            },
        )
    } else if expected > usize::MAX {
        Some(WorldInitError::AgentCountOverflow)
    } else if expected > MAX_TOTAL_AGENTS {
        Some(WorldInitError::TooManyAgents { max: MAX_TOTAL_AGENTS, actual: expected as usize })
    } else if agents.len() != expected {
        Some(
            WorldInitError::AgentCountMismatch {
                expected: expected as usize,
                actual: agents.len() as usize,
            },
        )
    } else if exists|i: int|
        0 <= i < agents.len() && (#[trigger] agents[i]).organism_id >= organism_count {
        Some(WorldInitError::InvalidOrganismId)
    } else {
        None
    }
}

/// Agents, organisms and counters of one run, over a scalar type `T` for
/// genome values and payload types `A` and `O` for the continuous state of
/// agents and organisms.
pub struct World<T, A, O> {
    agents: Vec<Agent<A>>,
    organisms: Vec<Organism<T, O>>,
    config: SimConfig,
    next_agent_id: u32,
    next_organism_stable_id: u64,
    step_index: usize,
    births_last_step: usize,
    deaths_last_step: usize,
    total_births: usize,
    total_deaths: usize,
    agent_id_exhaustions_last_step: usize,
    total_agent_id_exhaustions: usize,
    lifespans: Vec<usize>,
    lineage_events: Vec<LineageEvent>,
}

impl<T, A, O> View for World<T, A, O> {
    type V = WorldView<T, A, O>;

    closed spec fn view(&self) -> WorldView<T, A, O> {
        WorldView {
            agents: self.agents@,
            organisms: self.organisms@,
            config: self.config,
            next_agent_id: self.next_agent_id,
            next_organism_stable_id: self.next_organism_stable_id,
            step_index: self.step_index,
            births_last_step: self.births_last_step,
            deaths_last_step: self.deaths_last_step,
            total_births: self.total_births,
            total_deaths: self.total_deaths,
            agent_id_exhaustions_last_step: self.agent_id_exhaustions_last_step,
            total_agent_id_exhaustions: self.total_agent_id_exhaustions,
            lifespans: self.lifespans@,
            lineage_events: self.lineage_events@,
        }
    }
}

/// Whether every agent names one of `count` organisms.
fn links_valid<A>(agents: &Vec<Agent<A>>, count: usize) -> (ok: bool)
    ensures
        ok == (forall|i: int|
            0 <= i < agents@.len() ==> (#[trigger] agents@[i]).organism_id < count),
{
    let mut i: usize = 0;
    while i < agents.len()
        invariant
            i <= agents@.len(),
            forall|j: int| 0 <= j < i ==> (#[trigger] agents@[j]).organism_id < count,
        decreases agents@.len() - i,
    {
        if agents[i].organism_id as usize >= count {
            return false;
        }
        i = i + 1;
    }
    true
}

/// The largest identity among `agents`, or 0 when there is none.
fn largest_agent_id<A>(agents: &Vec<Agent<A>>) -> (max: u32)
    ensures
        max == max_agent_id(agents@),
{
    let mut max: u32 = 0;
    let mut i: usize = 0;
    while i < agents.len()
        invariant
            i <= agents@.len(),
            max == max_agent_id(agents@.take(i as int)),
        decreases agents@.len() - i,
    {
        proof {
            assert(agents@.take(i + 1).drop_last() =~= agents@.take(i as int));
        }
        if agents[i].id > max {
            max = agents[i].id;
        }
        i = i + 1;
    }
    proof {
        assert(agents@.take(agents@.len() as int) =~= agents@);
    }
    max
}

/// Records with every organism the agents that name it, in agent order.
pub(crate) fn link_agents<T: Copy, A, O>(
    organisms: &mut Vec<Organism<T, O>>,
    agents: &Vec<Agent<A>>,
)
    requires
        forall|i: int|
            0 <= i < agents@.len() ==> (#[trigger] agents@[i]).organism_id < old(organisms)@.len(),
        forall|k: int|
            0 <= k < old(organisms)@.len() ==> (#[trigger] old(organisms)@[k]).agent_ids@.len()
                == 0,
    ensures
        final(organisms)@.len() == old(organisms)@.len(),
        forall|k: int|
            0 <= k < old(organisms)@.len() ==> {
                &&& (#[trigger] final(organisms)@[k]).agent_ids@ == owned_ids(agents@, k)
                &&& final(organisms)@[k].id == old(organisms)@[k].id
                &&& final(organisms)@[k].same_but_links(&old(organisms)@[k])
            },
{
    let mut i: usize = 0;
    while i < agents.len()
        invariant
            i <= agents@.len(),
            organisms@.len() == old(organisms)@.len(),
            forall|j: int|
                0 <= j < agents@.len() ==> (#[trigger] agents@[j]).organism_id < organisms@.len(),
            forall|k: int|
                0 <= k < organisms@.len() ==> {
                    &&& (#[trigger] organisms@[k]).agent_ids@ == owned_ids(
                        agents@.take(i as int),
                        k,
                    )
                    &&& organisms@[k].id == old(organisms)@[k].id
                    &&& organisms@[k].same_but_links(&old(organisms)@[k])
                },
        decreases agents@.len() - i,
    {
        let owner: usize = agents[i].organism_id as usize;
        let id: u32 = agents[i].id;
        organisms[owner].agent_ids.push(id);
        proof {
            assert(agents@.take(i + 1).drop_last() =~= agents@.take(i as int));
        }
        i = i + 1;
    }
    proof {
        assert(agents@.take(agents@.len() as int) =~= agents@);
    }
}

/// One organism per founder, each alive, of generation 0, with its index as
/// stable identity and a genome made of its controller's weights.
fn found_organisms<T: Copy, O>(founders: Vec<Founder<T, O>>, fill: T) -> (organisms: Vec<
    Organism<T, O>,
>)
    ensures
        organisms@.len() == founders@.len(),
        forall|k: int|
            0 <= k < founders@.len() ==> {
                &&& (#[trigger] organisms@[k]).id == k as u16
                &&& organisms@[k].stable_id == k
                &&& organisms@[k].generation == 0
                &&& organisms@[k].age_steps == 0
                &&& organisms@[k].alive
                &&& organisms@[k].agent_ids@.len() == 0
                &&& organisms@[k].parent_stable_id is None
                &&& organisms@[k].nn == founders@[k].nn
                &&& organisms@[k].body == founders@[k].body
                &&& organisms@[k].genome@ == founders@[k].nn.weights() + Seq::new(
                    44,
                    |i: int| fill,
                )
                &&& organisms@[k].ancestor_genome@ == organisms@[k].genome@
                &&& organisms@[k].genomes_wf()
            },
{
    let mut organisms: Vec<Organism<T, O>> = Vec::with_capacity(founders.len());
    let ghost all = founders@;
    for founder in it: founders.into_iter()
        invariant
            it.seq() == all,
            organisms@.len() == it.index(),
            forall|k: int|
                0 <= k < organisms@.len() ==> {
                    &&& (#[trigger] organisms@[k]).id == k as u16
                    &&& organisms@[k].stable_id == k
                    &&& organisms@[k].generation == 0
                    &&& organisms@[k].age_steps == 0
                    &&& organisms@[k].alive
                    &&& organisms@[k].agent_ids@.len() == 0
                    &&& organisms@[k].parent_stable_id is None
                    &&& organisms@[k].nn == all[k].nn
                    &&& organisms@[k].body == all[k].body
                    &&& organisms@[k].genome@ == all[k].nn.weights() + Seq::new(
                        44,
                        |i: int| fill,
                    )
                    &&& organisms@[k].ancestor_genome@ == organisms@[k].genome@
                    &&& organisms@[k].genomes_wf()
                },
    {
        let index: usize = organisms.len();
        let genome = Genome::with_nn_weights(founder.nn.to_weight_vec(), fill);
        let ancestor_genome = genome.clone();
        let organism = Organism {
            id: #[verifier::truncate] (index as u16),
            stable_id: index as u64,
            generation: 0,
            age_steps: 0,
            alive: true,
            agent_ids: Vec::new(),
            parent_stable_id: None,
            genome,
            ancestor_genome,
            nn: founder.nn,
            body: founder.body,
        };
        organisms.push(organism);
    }
    organisms
}

impl<T: Copy, A, O> World<T, A, O> {
    /// The invariant of a world.
    pub open spec fn wf(&self) -> bool {
        self@.wf()
    }

    /// Creates a world from founder agents and founders. Each founder's
    /// genome is its controller's weights followed by `fill` in the six
    /// other segments. The result is an error exactly where `init_error`
    /// names one.
    pub fn try_new(
        agents: Vec<Agent<A>>,
        founders: Vec<Founder<T, O>>,
        fill: T,
        config: SimConfig,
    ) -> (r: Result<Self, WorldInitError>)
        ensures
            match init_error(agents@, founders@.len(), config) {
                Some(e) => r == Err::<Self, WorldInitError>(e),
                None => r is Ok && r.unwrap().wf() && r.unwrap()@.founded(
                    agents@,
                    founders@,
                    fill,
                    config,
                ),
            },
    {
        if config.num_organisms != founders.len() {
            return Err(
                WorldInitError::NumOrganismsMismatch {
                    expected: config.num_organisms,
                    actual: founders.len(),
                },
            );
        }
        let expected: usize = match config.founder_agent_count() {
            Some(n) => n,
            None => {
                return Err(WorldInitError::AgentCountOverflow);
            },
        };
        if expected > MAX_TOTAL_AGENTS {
            return Err(WorldInitError::TooManyAgents { max: MAX_TOTAL_AGENTS, actual: expected });
        }
        if agents.len() != expected {
            return Err(WorldInitError::AgentCountMismatch { expected, actual: agents.len() });
        }
        if !links_valid(&agents, founders.len()) {
            return Err(WorldInitError::InvalidOrganismId);
        }
        let count: usize = founders.len();
        let mut organisms = found_organisms(founders, fill);
        link_agents(&mut organisms, &agents);
        let max_id: u32 = largest_agent_id(&agents);
        let next_agent_id: u32 = if max_id < u32::MAX {
            max_id + 1
        } else {
            u32::MAX
        };
        proof {
            lemma_max_agent_id_bounds(agents@);
        }
        let world = World {
            agents,
            organisms,
            config,
            next_agent_id,
            next_organism_stable_id: count as u64,
            step_index: 0,
            births_last_step: 0,
            deaths_last_step: 0,
            total_births: 0,
            total_deaths: 0,
            agent_id_exhaustions_last_step: 0,
            total_agent_id_exhaustions: 0,
            lifespans: Vec::new(),
            lineage_events: Vec::new(),
        };
        Ok(world)
    }

    /// The agents, in their order.
    pub fn agents(&self) -> (r: &Vec<Agent<A>>)
        ensures
            r@ == self@.agents,
    {
        &self.agents
    }

    /// The organisms, in their order.
    pub fn organisms(&self) -> (r: &Vec<Organism<T, O>>)
        ensures
            r@ == self@.organisms,
    {
        &self.organisms
    }

    /// The configuration in force.
    pub fn config(&self) -> (r: &SimConfig)
        ensures
            *r == self@.config,
    {
        &self.config
    }

    /// Number of organisms, dead ones included.
    pub fn organism_count(&self) -> (n: usize)
        ensures
            n == self@.organisms.len(),
    {
        self.organisms.len()
    }

    /// For each organism, whether it is alive.
    pub fn live_flags(&self) -> (flags: Vec<bool>)
        ensures
            flags@.len() == self@.organisms.len(),
            forall|k: int|
                0 <= k < flags@.len() ==> flags@[k] == (#[trigger] self@.organisms[k]).alive,
    {
        let mut flags: Vec<bool> = Vec::with_capacity(self.organisms.len());
        let mut k: usize = 0;
        while k < self.organisms.len()
            invariant
                k <= self.organisms@.len(),
                flags@.len() == k,
                forall|j: int| 0 <= j < k ==> flags@[j] == (#[trigger] self.organisms@[j]).alive,
            decreases self.organisms@.len() - k,
        {
            flags.push(self.organisms[k].alive);
            k = k + 1;
        }
        flags
    }

    /// The continuous state of organism `org_idx`, where there is such an
    /// organism.
    pub fn try_organism_body(&self, org_idx: usize) -> (r: Option<&O>)
        ensures
            org_idx < self@.organisms.len() ==> r == Some(&self@.organisms[org_idx as int].body),
            org_idx >= self@.organisms.len() ==> r is None,
    {
        if org_idx < self.organisms.len() {
            Some(&self.organisms[org_idx].body)
        } else {
            None
        }
    }

    /// The continuous state of organism `org_idx`.
    pub fn organism_body(&self, org_idx: usize) -> (r: &O)
        requires
            org_idx < self@.organisms.len(),
        ensures
            *r == self@.organisms[org_idx as int].body,
    {
        &self.organisms[org_idx].body
    }

    /// Write access to the continuous state of organism `org_idx`. Nothing
    /// else of the world can change through it.
    pub fn organism_body_mut(&mut self, org_idx: usize) -> (r: &mut O)
        requires
            org_idx < old(self)@.organisms.len(),
        ensures
            *r == old(self)@.organisms[org_idx as int].body,
            final(self)@ == (WorldView {
                organisms: old(self)@.organisms.update(
                    org_idx as int,
                    Organism { body: *final(r), ..old(self)@.organisms[org_idx as int] },
                ),
                ..old(self)@
            }),
            old(self).wf() ==> final(self).wf(),
    {
        &mut self.organisms[org_idx].body
    }

    /// Write access to the physical state of agent `index`. Nothing else of
    /// the world can change through it.
    pub fn agent_body_mut(&mut self, index: usize) -> (r: &mut A)
        requires
            index < old(self)@.agents.len(),
        ensures
            *r == old(self)@.agents[index as int].body,
            final(self)@ == (WorldView {
                agents: old(self)@.agents.update(
                    index as int,
                    Agent { body: *final(r), ..old(self)@.agents[index as int] },
                ),
                ..old(self)@
            }),
            old(self).wf() ==> final(self).wf(),
    {
        proof {
            let pre = self@.agents;
            assert forall|b: Seq<Agent<A>>, k: int| same_links(pre, b) implies #[trigger] owned_ids(
                b,
                k,
            ) == owned_ids(pre, k) by {
                lemma_owned_ids_same_links(pre, b, k);
            }
        }
        &mut self.agents[index].body
    }

    /// Step index: the number of steps begun so far.
    pub fn step_index(&self) -> (n: usize)
        ensures
            n == self@.step_index,
    {
        self.step_index
    }

    /// Births during the current step.
    pub fn births_last_step(&self) -> (n: usize)
        ensures
            n == self@.births_last_step,
    {
        self.births_last_step
    }

    /// Deaths during the current step.
    pub fn deaths_last_step(&self) -> (n: usize)
        ensures
            n == self@.deaths_last_step,
    {
        self.deaths_last_step
    }

    /// Births since the world was created.
    pub fn total_births(&self) -> (n: usize)
        ensures
            n == self@.total_births,
    {
        self.total_births
    }

    /// Deaths since the world was created.
    pub fn total_deaths(&self) -> (n: usize)
        ensures
            n == self@.total_deaths,
    {
        self.total_deaths
    }

    /// Reproductions refused during the current step for want of agent
    /// identities.
    pub fn agent_id_exhaustions_last_step(&self) -> (n: usize)
        ensures
            n == self@.agent_id_exhaustions_last_step,
    {
        self.agent_id_exhaustions_last_step
    }

    /// Reproductions refused since the world was created for want of agent
    /// identities.
    pub fn total_agent_id_exhaustions(&self) -> (n: usize)
        ensures
            n == self@.total_agent_id_exhaustions,
    {
        self.total_agent_id_exhaustions
    }

    /// The identity that the next agent gets.
    pub fn next_agent_id(&self) -> (n: u32)
        ensures
            n == self@.next_agent_id,
    {
        self.next_agent_id
    }

    /// The stable identity that the next organism gets.
    pub fn next_organism_stable_id(&self) -> (n: u64)
        ensures
            n == self@.next_organism_stable_id,
    {
        self.next_organism_stable_id
    }

    /// Ages at death, in the order of the deaths.
    pub fn lifespans(&self) -> (r: &Vec<usize>)
        ensures
            r@ == self@.lifespans,
    {
        &self.lifespans
    }

    /// Births, in their order.
    pub fn lineage_events(&self) -> (r: &Vec<LineageEvent>)
        ensures
            r@ == self@.lineage_events,
    {
        &self.lineage_events
    }

    /// Overwrites segment `criterion` of the genome of organism `org_idx`
    /// with `values`. The organism's other segments, its other fields and
    /// the rest of the world stay as they were.
    pub fn set_genome_segment(&mut self, org_idx: usize, criterion: usize, values: &[T])
        requires
            old(self).wf(),
            org_idx < old(self)@.organisms.len(),
            criterion < 7,
            values@.len() == segment_len(
                old(self)@.organisms[org_idx as int].genome.nn_len(),
                criterion as int,
            ),
        ensures
            final(self).wf(),
            final(self)@ == (WorldView { organisms: final(self)@.organisms, ..old(self)@ }),
            final(self)@.organisms.len() == old(self)@.organisms.len(),
            forall|k: int|
                0 <= k < old(self)@.organisms.len() && k != org_idx
                    ==> #[trigger] final(self)@.organisms[k] == old(self)@.organisms[k],
            final(self)@.organisms[org_idx as int].same_but_genome(
                &old(self)@.organisms[org_idx as int],
            ),
            final(self)@.organisms[org_idx as int].genome@.len()
                == old(self)@.organisms[org_idx as int].genome@.len(),
            final(self)@.organisms[org_idx as int].genome.segment(criterion as int) == values@,
            forall|i: int|
                0 <= i < 7 && i != criterion
                    ==> #[trigger] final(self)@.organisms[org_idx as int].genome.segment(i)
                    == old(self)@.organisms[org_idx as int].genome.segment(i),
    {
        self.organisms[org_idx].genome.set_segment_data(criterion, values);
    }

    /// Puts `config` in force, unless the world does not have the number of
    /// organisms and agents that it names. The result is an error exactly
    /// where `reconfig_error` names one, and the world is then unchanged.
    pub fn set_config(&mut self, config: SimConfig) -> (r: Result<(), WorldInitError>)
        requires
            old(self).wf(),
        ensures
            final(self).wf(),
            match old(self)@.reconfig_error(config) {
                Some(e) => r == Err::<(), WorldInitError>(e) && final(self)@ == old(self)@,
                None => r is Ok && final(self)@ == (WorldView { config, ..old(self)@ }),
            },
    {
        if config.num_organisms != self.organisms.len() {
            return Err(
                WorldInitError::NumOrganismsMismatch {
                    expected: config.num_organisms,
                    actual: self.organisms.len(),
                },
            );
        }
        let expected: usize = match config.founder_agent_count() {
            Some(n) => n,
            None => {
                return Err(WorldInitError::AgentCountOverflow);
            },
        };
        if self.agents.len() != expected {
            return Err(WorldInitError::AgentCountMismatch { expected, actual: self.agents.len() });
        }
        self.config = config;
        Ok(())
    }

    /// Forgets the lifespans and births recorded so far.
    pub fn clear_records(&mut self)
        ensures
            final(self)@ == (WorldView {
                lifespans: Seq::empty(),
                lineage_events: Seq::empty(),
                ..old(self)@
            }),
            old(self).wf() ==> final(self).wf(),
    {
        self.lifespans.clear();
        self.lineage_events.clear();
    }

    /// Hands over the lifespans recorded so far and forgets them.
    pub fn take_lifespans(&mut self) -> (taken: Vec<usize>)
        ensures
            taken@ == old(self)@.lifespans,
            final(self)@ == (WorldView { lifespans: Seq::empty(), ..old(self)@ }),
            old(self).wf() ==> final(self).wf(),
    {
        let mut taken: Vec<usize> = Vec::new();
        std::mem::swap(&mut taken, &mut self.lifespans);
        taken
    }

    /// Hands over the births recorded so far and forgets them.
    pub fn take_lineage_events(&mut self) -> (taken: Vec<LineageEvent>)
        ensures
            taken@ == old(self)@.lineage_events,
            final(self)@ == (WorldView { lineage_events: Seq::empty(), ..old(self)@ }),
            old(self).wf() ==> final(self).wf(),
    {
        let mut taken: Vec<LineageEvent> = Vec::new();
        std::mem::swap(&mut taken, &mut self.lineage_events);
        taken
    }
}

} // verus!
