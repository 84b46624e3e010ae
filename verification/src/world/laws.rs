//! What holds of every world, whatever sequence of operations made it.
//!
//! Each operation that changes a world is a `Transition`; `relates` says
//! what the operation's contract promises of the state before and after.
//! The laws below are proved of every transition, so they hold along every
//! run.

use crate::agent::lemma_agent_is_owned;
use crate::agent::Agent;
use crate::config::SimConfig;
use crate::config::MAX_TOTAL_AGENTS;
use crate::genome::Genome;
use crate::organism::Organism;
use crate::world::lifecycle::Admission;
use crate::world::WorldView;
use vstd::prelude::*;

verus! {

/// One change of a world.
pub enum Transition<T, A, O> {
    /// A step begins.
    StepStart,
    /// An organism is declared dead.
    Death { index: int },
    /// An organism ages by one step.
    Ageing { index: int },
    /// A parent asks whether its child's agents fit.
    Admission { child_agents: nat },
    /// An organism bears a child.
    Birth { parent: int, genome: Genome<T>, bodies: Seq<A>, body: O },
    /// The dead are removed.
    Compaction,
    /// An agent's payload is replaced.
    AgentBody { index: int, body: A },
    /// An organism's payload is replaced.
    OrganismBody { index: int, body: O },
    /// A new configuration is put in force.
    Config { config: SimConfig },
    /// The lifespans and births recorded so far are forgotten.
    RecordsCleared,
    /// A segment of an organism's genome is overwritten.
    GenomeSegment { index: int },
    /// An agent identity is handed out without an agent being added.
    IdTaken,
}

impl<T: Copy, A, O> WorldView<T, A, O> {
    /// `post` is what the transition `t` makes of `self`.
    pub open spec fn relates(self, t: Transition<T, A, O>, post: Self) -> bool {
        match t {
            Transition::StepStart => post == self.after_step_start(),
            Transition::Death { index } => post == self.after_death(index),
            Transition::Ageing { index } => post == self.after_ageing(index),
            Transition::Admission { child_agents } => post == self.after_admission(child_agents),
            Transition::Birth { parent, genome, bodies, body } => {
                &&& 0 <= parent < self.organisms.len()
                &&& self.agents.len() + bodies.len() <= MAX_TOTAL_AGENTS
                &&& bodies.len() <= self.ids_left()
                &&& if self.can_bear(bodies.len()) {
                    post.born_from(self, parent, genome, bodies, body)
                } else {
                    post == self
                }
            },
            Transition::Compaction => post.compacted_from(self),
            Transition::AgentBody { index, body } => {
                &&& 0 <= index < self.agents.len()
                &&& post == (WorldView {
                    agents: self.agents.update(index, Agent { body, ..self.agents[index] }),
                    ..self
                })
            },
            Transition::OrganismBody { index, body } => {
                &&& 0 <= index < self.organisms.len()
                &&& post == (WorldView {
                    organisms: self.organisms.update(
                        index,
                        Organism { body, ..self.organisms[index] },
                    ),
                    ..self
                })
            },
            Transition::Config { config } => post == (WorldView { config, ..self }),
            Transition::RecordsCleared => post == (WorldView {
                lifespans: Seq::empty(),
                lineage_events: Seq::empty(),
                ..self
            }),
            Transition::GenomeSegment { index } => {
                &&& 0 <= index < self.organisms.len()
                &&& post == (WorldView { organisms: post.organisms, ..self })
                &&& post.organisms.len() == self.organisms.len()
                &&& forall|k: int|
                    0 <= k < self.organisms.len() && k != index
                        ==> #[trigger] post.organisms[k] == self.organisms[k]
                &&& post.organisms[index].same_but_genome(&self.organisms[index])
            },
            Transition::IdTaken => post == if self.next_agent_id < u32::MAX {
                WorldView { next_agent_id: (self.next_agent_id + 1) as u32, ..self }
            } else {
                self
            },
        }
    }

    /// No two agents carry the same identity.
    pub open spec fn agent_ids_distinct(self) -> bool {
        forall|i: int, j: int|
            0 <= i < j < self.agents.len() ==> (#[trigger] self.agents[i]).id != (
            #[trigger] self.agents[j]).id
    }

    /// Stable identities grow along the organism array; in particular no two
    /// organisms carry the same one.
    pub open spec fn stable_ids_increasing(self) -> bool {
        forall|j: int, k: int|
            0 <= j < k < self.organisms.len() ==> (#[trigger] self.organisms[j]).stable_id < (
            #[trigger] self.organisms[k]).stable_id
    }

    /// `agent` has the identity and payload of an agent of `self` whose
    /// organism is alive.
    pub open spec fn is_survivor(self, agent: Agent<A>) -> bool {
        exists|o: int|
            0 <= o < self.agents.len() && self.organisms[(
            #[trigger] self.agents[o]).organism_id as int].alive && agent.id == self.agents[o].id
                && agent.body == self.agents[o].body
    }

    /// Every index below the number of the living is the new index of a
    /// living organism.
    pub proof fn lemma_rank_onto(self, upto: int, j: int)
        requires
            0 <= upto <= self.organisms.len(),
            0 <= j < self.alive_before(upto),
        ensures
            exists|k: int|
                0 <= k < upto && (#[trigger] self.organisms[k]).alive && self.alive_before(k) == j,
        decreases upto,
    {
        if !(self.organisms[upto - 1].alive && self.alive_before(upto - 1) == j) {
            self.lemma_rank_onto(upto - 1, j);
        }
    }

    /// Of two living organisms the earlier one gets the smaller new index.
    pub proof fn lemma_rank_strict(self, a: int, b: int)
        requires
            0 <= a < b < self.organisms.len(),
            self.organisms[a].alive,
        ensures
            self.alive_before(a) < self.alive_before(b),
    {
        self.lemma_alive_before_monotone(a + 1, b);
    }

    /// The identities of the agents that compaction keeps are distinct where
    /// those of all agents are.
    pub proof fn lemma_kept_ids_distinct(self, upto: int)
        requires
            self.agent_ids_distinct(),
            0 <= upto <= self.agents.len(),
        ensures
            forall|i: int, j: int|
                0 <= i < j < self.kept_agents(upto).len() ==> (#[trigger] self.kept_agents(
                    upto,
                )[i]).id != (#[trigger] self.kept_agents(upto)[j]).id,
        decreases upto,
    {
        if upto > 0 {
            self.lemma_kept_ids_distinct(upto - 1);
            let rest = self.kept_agents(upto - 1);
            let now = self.kept_agents(upto);
            assert forall|i: int, j: int| 0 <= i < j < now.len() implies (#[trigger] now[i]).id != (
            #[trigger] now[j]).id by {
                if j >= rest.len() {
                    self.lemma_kept_agents_origin(upto - 1, i);
                }
            }
        }
    }
}

/// No transition lowers the next agent identity, and a birth raises it. So
/// identities are handed out in strictly increasing order.
pub proof fn law_next_agent_id_grows<T: Copy, A, O>(
    pre: WorldView<T, A, O>,
    t: Transition<T, A, O>,
    post: WorldView<T, A, O>,
)
    requires
        pre.wf(),
        pre.relates(t, post),
    ensures
        pre.next_agent_id <= post.next_agent_id,
        t is Birth && pre.can_bear(t->bodies.len()) ==> pre.next_agent_id < post.next_agent_id,
{
}

/// A parent whose child needs more agent identities than are left gets no
/// child: it is answered `Exhausted`, both exhaustion counters grow by one,
/// and agents, organisms, the next agent identity and the lineage stay as
/// they were.
pub proof fn law_exhausted_parent_gets_no_child<T: Copy, A, O>(
    pre: WorldView<T, A, O>,
    child_agents: nat,
)
    requires
        pre.agents.len() + child_agents <= MAX_TOTAL_AGENTS,
        pre.ids_left() < child_agents,
        pre.total_agent_id_exhaustions < usize::MAX,
        pre.agent_id_exhaustions_last_step <= pre.total_agent_id_exhaustions,
    ensures
        pre.admission(child_agents) == Admission::Exhausted,
        pre.after_admission(child_agents).agent_id_exhaustions_last_step
            == pre.agent_id_exhaustions_last_step + 1,
        pre.after_admission(child_agents).total_agent_id_exhaustions
            == pre.total_agent_id_exhaustions + 1,
        pre.after_admission(child_agents).agents == pre.agents,
        pre.after_admission(child_agents).organisms == pre.organisms,
        pre.after_admission(child_agents).next_agent_id == pre.next_agent_id,
        pre.after_admission(child_agents).lineage_events == pre.lineage_events,
{
}

/// A parent that is admitted can be given every agent of its child: the
/// agents fit under the cap and an identity is left for each.
pub proof fn law_admitted_child_is_complete<T: Copy, A, O>(
    pre: WorldView<T, A, O>,
    child_agents: nat,
)
    requires
        pre.admission(child_agents) == Admission::Admit,
    ensures
        pre.after_admission(child_agents) == pre,
        pre.agents.len() + child_agents <= MAX_TOTAL_AGENTS,
        child_agents <= pre.ids_left(),
{
}

/// A child that is born gets one agent for each payload: the agents stand
/// behind those that were there, carry consecutive identities from the next
/// one on, name the child and are listed by it in that order.
pub proof fn law_child_gets_all_agents<T: Copy, A, O>(
    pre: WorldView<T, A, O>,
    parent: int,
    genome: Genome<T>,
    bodies: Seq<A>,
    body: O,
    post: WorldView<T, A, O>,
)
    requires
        pre.wf(),
        post.born_from(pre, parent, genome, bodies, body),
    ensures
        post.agents.len() == pre.agents.len() + bodies.len(),
        post.organisms[pre.organisms.len() as int].agent_ids@.len() == bodies.len(),
        forall|j: int|
            0 <= j < bodies.len() ==> {
                &&& (#[trigger] post.agents[pre.agents.len() + j]).id == pre.next_agent_id + j
                &&& post.agents[pre.agents.len() + j].organism_id == pre.organisms.len() as u16
                &&& post.agents[pre.agents.len() + j].body == bodies[j]
                &&& post.organisms[pre.organisms.len() as int].agent_ids@[j]
                    == post.agents[pre.agents.len() + j].id
            },
{
    assert forall|j: int| 0 <= j < bodies.len() implies {
        &&& (#[trigger] post.agents[pre.agents.len() + j]).id == pre.next_agent_id + j
        &&& post.agents[pre.agents.len() + j].organism_id == pre.organisms.len() as u16
        &&& post.agents[pre.agents.len() + j].body == bodies[j]
        &&& post.organisms[pre.organisms.len() as int].agent_ids@[j]
            == post.agents[pre.agents.len() + j].id
    } by {
        assert(post.agents[pre.agents.len() + j] == pre.child_agents(bodies)[j]);
    }
}

/// Every birth is recorded: the lineage grows by one event, which names the
/// parent's and the child's stable identities and the step of the birth, and
/// whose generation is the child's, one more than the parent's. The child
/// of a founder is of generation 1.
pub proof fn law_birth_is_recorded<T: Copy, A, O>(
    pre: WorldView<T, A, O>,
    parent: int,
    genome: Genome<T>,
    bodies: Seq<A>,
    body: O,
    post: WorldView<T, A, O>,
)
    requires
        post.born_from(pre, parent, genome, bodies, body),
    ensures
        post.lineage_events.len() == pre.lineage_events.len() + 1,
        post.lineage_events.last().step == pre.step_index,
        post.lineage_events.last().parent_stable_id == pre.organisms[parent].stable_id,
        post.lineage_events.last().child_stable_id
            == post.organisms[pre.organisms.len() as int].stable_id,
        post.lineage_events.last().generation
            == post.organisms[pre.organisms.len() as int].generation,
        post.lineage_events.last().generation == pre.organisms[parent].generation + 1,
        pre.organisms[parent].generation == 0 ==> post.lineage_events.last().generation == 1,
        post.organisms[pre.organisms.len() as int].parent_stable_id == Some(
            pre.organisms[parent].stable_id,
        ),
        post.total_births == pre.total_births + 1,
{
}

/// The agents that a birth adds carry identities that no agent carried
/// before: each is at least the next identity of the state before, which
/// lies above every identity in use.
pub proof fn law_born_agents_are_fresh<T: Copy, A, O>(
    pre: WorldView<T, A, O>,
    parent: int,
    genome: Genome<T>,
    bodies: Seq<A>,
    body: O,
    post: WorldView<T, A, O>,
)
    requires
        pre.wf(),
        pre.can_bear(bodies.len()),
        post.born_from(pre, parent, genome, bodies, body),
    ensures
        post.agents.len() == pre.agents.len() + bodies.len(),
        forall|i: int|
            0 <= i < pre.agents.len() ==> #[trigger] post.agents[i] == pre.agents[i],
        forall|i: int, j: int|
            0 <= i < pre.agents.len() && pre.agents.len() <= j < post.agents.len() ==> (
            #[trigger] pre.agents[i]).id < pre.next_agent_id <= (#[trigger] post.agents[j]).id,
{
}

/// Agent identities never repeat: where they are distinct before a
/// transition they are distinct after it.
pub proof fn law_agent_ids_stay_distinct<T: Copy, A, O>(
    pre: WorldView<T, A, O>,
    t: Transition<T, A, O>,
    post: WorldView<T, A, O>,
)
    requires
        pre.wf(),
        pre.agent_ids_distinct(),
        pre.relates(t, post),
    ensures
        post.agent_ids_distinct(),
{
    match t {
        Transition::Birth { parent, genome, bodies, body } => {
            if pre.can_bear(bodies.len()) {
                law_born_agents_are_fresh(pre, parent, genome, bodies, body, post);
            }
        },
        Transition::Compaction => {
            if !pre.all_alive() {
                pre.lemma_kept_ids_distinct(pre.agents.len() as int);
            }
        },
        _ => {},
    }
}

/// Stable identities are never reused: where they grow along the organism
/// array before a transition they do so after it. A birth is covered as long
/// as the counter of stable identities has not reached the largest 64-bit
/// number.
pub proof fn law_stable_ids_stay_distinct<T: Copy, A, O>(
    pre: WorldView<T, A, O>,
    t: Transition<T, A, O>,
    post: WorldView<T, A, O>,
)
    requires
        pre.wf(),
        pre.stable_ids_increasing(),
        pre.relates(t, post),
        t is Birth ==> pre.next_organism_stable_id < u64::MAX,
    ensures
        post.stable_ids_increasing(),
        pre.next_organism_stable_id <= post.next_organism_stable_id,
{
    match t {
        Transition::Compaction => {
            if !pre.all_alive() {
                assert forall|j: int, k: int| 0 <= j < k < post.organisms.len() implies (
                #[trigger] post.organisms[j]).stable_id < (
                #[trigger] post.organisms[k]).stable_id by {
                    let n = pre.organisms.len() as int;
                    pre.lemma_rank_onto(n, j);
                    pre.lemma_rank_onto(n, k);
                    let a = choose|a: int|
                        0 <= a < n && (#[trigger] pre.organisms[a]).alive && pre.alive_before(a)
                            == j;
                    let b = choose|b: int|
                        0 <= b < n && (#[trigger] pre.organisms[b]).alive && pre.alive_before(b)
                            == k;
                    if b < a {
                        pre.lemma_rank_strict(b, a);
                    }
                }
            }
        },
        _ => {},
    }
}

/// The organism array never outgrows its cap: a birth takes place only
/// while the child's index fits 16 bits, and no other transition adds an
/// organism. So an array that starts within the cap on agents stays within
/// it, and so does the number of the living.
pub proof fn law_population_is_capped<T: Copy, A, O>(
    pre: WorldView<T, A, O>,
    t: Transition<T, A, O>,
    post: WorldView<T, A, O>,
)
    requires
        pre.wf(),
        pre.relates(t, post),
    ensures
        post.organisms.len() <= pre.organisms.len() || post.organisms.len() <= u16::MAX + 1,
        pre.organisms.len() <= MAX_TOTAL_AGENTS ==> post.organisms.len() <= MAX_TOTAL_AGENTS,
        post.alive_count() <= post.organisms.len(),
{
    post.lemma_alive_before_monotone(0, post.organisms.len() as int);
    match t {
        Transition::Compaction => {
            pre.lemma_alive_before_monotone(0, pre.organisms.len() as int);
        },
        _ => {},
    }
}

/// No transition brings the dead back. Compaction leaves only organisms
/// that lived before it; every other transition keeps each organism at its
/// index, and one that was dead there is dead there afterwards.
pub proof fn law_death_is_final<T: Copy, A, O>(
    pre: WorldView<T, A, O>,
    t: Transition<T, A, O>,
    post: WorldView<T, A, O>,
)
    requires
        pre.wf(),
        pre.relates(t, post),
    ensures
        !(t is Compaction) ==> forall|k: int|
            0 <= k < pre.organisms.len() && !(#[trigger] pre.organisms[k]).alive ==> k
                < post.organisms.len() && !post.organisms[k].alive,
        t is Compaction ==> post.all_alive(),
{
    match t {
        Transition::Compaction => {
            if !pre.all_alive() {
                assert forall|j: int| 0 <= j < post.organisms.len() implies (
                #[trigger] post.organisms[j]).alive by {
                    pre.lemma_rank_onto(pre.organisms.len() as int, j);
                }
            }
        },
        _ => {},
    }
}

/// After compaction every agent belongs to a living organism, and the
/// agents that were kept are those whose organism lived, each with the
/// identity and payload it had.
pub proof fn law_compaction_keeps_the_living<T: Copy, A, O>(
    pre: WorldView<T, A, O>,
    post: WorldView<T, A, O>,
)
    requires
        pre.wf(),
        post.compacted_from(pre),
    ensures
        forall|i: int|
            0 <= i < post.agents.len() ==> (#[trigger] post.agents[i]).organism_id
                < post.organisms.len() && post.organisms[post.agents[i].organism_id as int].alive,
        forall|i: int| 0 <= i < post.agents.len() ==> pre.is_survivor(#[trigger] post.agents[i]),
{
    law_death_is_final(pre, Transition::Compaction, post);
    if !pre.all_alive() {
        assert forall|i: int| 0 <= i < post.agents.len() implies (
        #[trigger] post.agents[i]).organism_id < post.organisms.len()
            && post.organisms[post.agents[i].organism_id as int].alive && pre.is_survivor(
            post.agents[i],
        ) by {
            pre.lemma_kept_agents_origin(pre.agents.len() as int, i);
            let o = choose|o: int|
                0 <= o < pre.agents.len() && pre.organisms[(
                #[trigger] pre.agents[o]).organism_id as int].alive && post.agents[i].id
                    == pre.agents[o].id && post.agents[i].body == pre.agents[o].body
                    && post.agents[i].organism_id == pre.alive_before(
                    pre.agents[o].organism_id as int,
                ) as u16;
            pre.lemma_rank_in_range(pre.agents[o].organism_id as int);
        }
    }
}

/// The organism array grows by births and shrinks by compaction, and by
/// nothing else.
pub proof fn law_population_changes<T: Copy, A, O>(
    pre: WorldView<T, A, O>,
    t: Transition<T, A, O>,
    post: WorldView<T, A, O>,
)
    requires
        pre.wf(),
        pre.relates(t, post),
    ensures
        !(t is Birth) && !(t is Compaction) ==> post.organisms.len() == pre.organisms.len(),
        t is Birth ==> post.organisms.len() == pre.organisms.len() + if pre.can_bear(
            t->bodies.len(),
        ) {
            1int
        } else {
            0int
        },
        t is Compaction ==> post.organisms.len() == pre.alive_count(),
        post.agents.len() <= MAX_TOTAL_AGENTS,
{
    match t {
        Transition::Compaction => {
            pre.lemma_kept_agents_len(pre.agents.len() as int);
            if pre.all_alive() {
                pre.lemma_all_alive_count(pre.organisms.len() as int);
            }
        },
        _ => {},
    }
}

/// In every world each agent names an organism of the array, and that
/// organism lists the agent among those it owns.
pub proof fn law_agents_are_owned<T: Copy, A, O>(world: WorldView<T, A, O>)
    requires
        world.wf(),
    ensures
        forall|i: int|
            0 <= i < world.agents.len() ==> (#[trigger] world.agents[i]).organism_id
                < world.organisms.len()
                && world.organisms[world.agents[i].organism_id as int].agent_ids@.contains(
                world.agents[i].id,
            ),
{
    assert forall|i: int| 0 <= i < world.agents.len() implies (
    #[trigger] world.agents[i]).organism_id < world.organisms.len()
        && world.organisms[world.agents[i].organism_id as int].agent_ids@.contains(
        world.agents[i].id,
    ) by {
        lemma_agent_is_owned(world.agents, i);
    }
}

/// Declaring an organism dead twice is the same as doing it once.
pub proof fn law_death_is_idempotent<T: Copy, A, O>(pre: WorldView<T, A, O>, index: int)
    ensures
        pre.after_death(index).after_death(index) == pre.after_death(index),
{
}

} // verus!
