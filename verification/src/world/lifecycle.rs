//! Birth, death, ageing and compaction.

use crate::agent::lemma_owned_ids_of_stranger;
use crate::agent::owned_ids;
use crate::agent::Agent;
use crate::config::MAX_TOTAL_AGENTS;
use crate::genome::Genome;
use crate::organism::child_weights;
use crate::organism::controller_for;
use crate::organism::Organism;
use crate::world::metrics::LineageEvent;
use crate::world::link_agents;
use crate::world::World;
use crate::world::WorldView;
use vstd::prelude::*;

verus! {

impl<T: Copy, A, O> WorldView<T, A, O> {
    /// The state after organism `index` has been declared dead: where it is
    /// alive, it ceases to be, its age joins the lifespans and both death
    /// counters grow by one; otherwise nothing changes.
    pub open spec fn after_death(self, index: int) -> Self {
        if 0 <= index < self.organisms.len() && self.organisms[index].alive {
            WorldView {
                organisms: self.organisms.update(
                    index,
                    Organism { alive: false, ..self.organisms[index] },
                ),
                lifespans: self.lifespans.push(self.organisms[index].age_steps),
                deaths_last_step: (self.deaths_last_step + 1) as usize,
                total_deaths: (self.total_deaths + 1) as usize,
                ..self
            }
        } else {
            self
        }
    }

    /// The state at the start of a step: the step index has advanced,
    /// stopping at the largest machine word, and the per-step counters are
    /// zero.
    pub open spec fn after_step_start(self) -> Self {
        WorldView {
            step_index: if self.step_index < usize::MAX {
                (self.step_index + 1) as usize
            } else {
                usize::MAX
            },
            births_last_step: 0,
            deaths_last_step: 0,
            agent_id_exhaustions_last_step: 0,
            ..self
        }
    }
}

impl<T: Copy, A, O> WorldView<T, A, O> {
    /// Every organism is alive.
    pub open spec fn all_alive(self) -> bool {
        forall|k: int| 0 <= k < self.organisms.len() ==> (#[trigger] self.organisms[k]).alive
    }

    /// Number of organisms that are dead.
    pub open spec fn dead_count(self) -> nat {
        (self.organisms.len() - self.alive_count()) as nat
    }

    /// What compaction makes of the first `upto` agents: those whose
    /// organism is alive, in their order, each naming the new index of its
    /// organism, which is the number of living organisms before it.
    pub open spec fn kept_agents(self, upto: int) -> Seq<Agent<A>>
        decreases upto,
    {
        if upto <= 0 {
            Seq::empty()
        } else {
            let agent = self.agents[upto - 1];
            let rest = self.kept_agents(upto - 1);
            if self.organisms[agent.organism_id as int].alive {
                rest.push(
                    Agent {
                        organism_id: self.alive_before(agent.organism_id as int) as u16,
                        ..agent
                    },
                )
            } else {
                rest
            }
        }
    }

    /// `self` is what compaction makes of `pre`. Where every organism of
    /// `pre` is alive nothing changes. Otherwise the living organisms stand
    /// in their order at the front, each unchanged but for its index and its
    /// list of agents; the agents of the dead are gone and the others name
    /// their organism's new index; counters and records stay.
    pub open spec fn compacted_from(self, pre: Self) -> bool {
        if pre.all_alive() {
            self == pre
        } else {
            &&& self.organisms.len() == pre.alive_count()
            &&& forall|k: int|
                0 <= k < pre.organisms.len() && (#[trigger] pre.organisms[k]).alive
                    ==> self.organisms[pre.alive_before(k) as int].same_but_links(
                    &pre.organisms[k],
                )
            &&& self.agents == pre.kept_agents(pre.agents.len() as int)
            &&& self.config == pre.config
            &&& self.next_agent_id == pre.next_agent_id
            &&& self.next_organism_stable_id == pre.next_organism_stable_id
            &&& self.step_index == pre.step_index
            &&& self.births_last_step == pre.births_last_step
            &&& self.deaths_last_step == pre.deaths_last_step
            &&& self.total_births == pre.total_births
            &&& self.total_deaths == pre.total_deaths
            &&& self.agent_id_exhaustions_last_step == pre.agent_id_exhaustions_last_step
            &&& self.total_agent_id_exhaustions == pre.total_agent_id_exhaustions
            &&& self.lifespans == pre.lifespans
            &&& self.lineage_events == pre.lineage_events
        }
    }

    /// The count of the living grows with the prefix and never exceeds it.
    pub proof fn lemma_alive_before_monotone(self, a: int, b: int)
        requires
            0 <= a <= b,
        ensures
            self.alive_before(a) <= self.alive_before(b),
            self.alive_before(b) <= b,
            self.alive_before(b) - self.alive_before(a) <= b - a,
        decreases b,
    {
        if a < b {
            self.lemma_alive_before_monotone(a, b - 1);
        } else {
            if b > 0 {
                self.lemma_alive_before_monotone(0, b - 1);
            }
        }
    }

    /// A living organism's new index lies below the number of the living.
    pub proof fn lemma_rank_in_range(self, k: int)
        requires
            0 <= k < self.organisms.len(),
            self.organisms[k].alive,
        ensures
            self.alive_before(k) < self.alive_count(),
            self.alive_before(k) <= k,
    {
        self.lemma_alive_before_monotone(k + 1, self.organisms.len() as int);
        self.lemma_alive_before_monotone(0, k);
    }

    /// Where every organism is alive, the living among the first `upto` are
    /// all of them.
    pub proof fn lemma_all_alive_count(self, upto: int)
        requires
            self.all_alive(),
            0 <= upto <= self.organisms.len(),
        ensures
            self.alive_before(upto) == upto,
        decreases upto,
    {
        if upto > 0 {
            self.lemma_all_alive_count(upto - 1);
        }
    }

    /// Every agent that compaction keeps was an agent before, with the same
    /// identity and payload, and its organism was alive.
    pub proof fn lemma_kept_agents_origin(self, upto: int, j: int)
        requires
            0 <= upto <= self.agents.len(),
            0 <= j < self.kept_agents(upto).len(),
        ensures
            exists|i: int|
                0 <= i < upto && self.organisms[(
                #[trigger] self.agents[i]).organism_id as int].alive
                    && self.kept_agents(upto)[j].id == self.agents[i].id && self.kept_agents(
                    upto,
                )[j].body == self.agents[i].body && self.kept_agents(upto)[j].organism_id
                    == self.alive_before(self.agents[i].organism_id as int) as u16,
        decreases upto,
    {
        let agent = self.agents[upto - 1];
        let rest = self.kept_agents(upto - 1);
        if self.organisms[agent.organism_id as int].alive && j == rest.len() {
            let i = upto - 1;
        } else {
            self.lemma_kept_agents_origin(upto - 1, j);
            let i = choose|i: int|
                0 <= i < upto - 1 && self.organisms[(
                #[trigger] self.agents[i]).organism_id as int].alive && rest[j].id
                    == self.agents[i].id && rest[j].body == self.agents[i].body
                    && rest[j].organism_id == self.alive_before(
                    self.agents[i].organism_id as int,
                ) as u16;
        }
    }

    /// Compaction keeps no more agents than there were.
    pub proof fn lemma_kept_agents_len(self, upto: int)
        requires
            0 <= upto,
        ensures
            self.kept_agents(upto).len() <= upto,
        decreases upto,
    {
        if upto > 0 {
            self.lemma_kept_agents_len(upto - 1);
        }
    }
}

/// What a reproduction pass is told before it lets a parent reproduce.
#[derive(Clone, Copy, Debug, PartialEq, Eq, Structural)]
pub enum Admission {
    /// The child's agents fit; the pass goes on with this parent.
    Admit,
    /// The child's agents would exceed the cap on agents; the pass ends.
    Full,
    /// Fewer agent identities are left than the child needs; the pass ends
    /// and the event is counted.
    Exhausted,
}

impl<T: Copy, A, O> WorldView<T, A, O> {
    /// Number of agent identities that can still be handed out. The largest
    /// 32-bit number is never handed out.
    pub open spec fn ids_left(self) -> nat {
        (u32::MAX - self.next_agent_id) as nat
    }

    /// The answer to a parent whose child would have `child_agents` agents:
    /// `Full` where they would exceed the cap on agents, else `Exhausted`
    /// where fewer identities are left than the child needs, else `Admit`.
    pub open spec fn admission(self, child_agents: nat) -> Admission {
        if self.agents.len() + child_agents > MAX_TOTAL_AGENTS {
            Admission::Full
        } else if self.ids_left() < child_agents {
            Admission::Exhausted
        } else {
            Admission::Admit
        }
    }

    /// The state after that answer: an exhaustion is counted, nothing else
    /// changes.
    pub open spec fn after_admission(self, child_agents: nat) -> Self {
        if self.admission(child_agents) == Admission::Exhausted {
            WorldView {
                agent_id_exhaustions_last_step: (self.agent_id_exhaustions_last_step + 1) as usize,
                total_agent_id_exhaustions: (self.total_agent_id_exhaustions + 1) as usize,
                ..self
            }
        } else {
            self
        }
    }

    /// The state after organism `index` has lived one more step: its age has
    /// grown by one, stopping at the largest machine word. A dead organism
    /// and an index beyond the array change nothing.
    pub open spec fn after_ageing(self, index: int) -> Self {
        if 0 <= index < self.organisms.len() && self.organisms[index].alive {
            WorldView {
                organisms: self.organisms.update(
                    index,
                    Organism {
                        age_steps: if self.organisms[index].age_steps < usize::MAX {
                            (self.organisms[index].age_steps + 1) as usize
                        } else {
                            usize::MAX
                        },
                        ..self.organisms[index]
                    },
                ),
                ..self
            }
        } else {
            self
        }
    }

    /// Whether compaction is due: at least one organism is dead, and either
    /// the step index is a multiple of the configured interval or the dead
    /// are a quarter of the organisms or more.
    pub open spec fn compaction_due(self) -> bool {
        &&& self.dead_count() > 0
        &&& ({
            ||| (if self.config.compaction_interval_steps == 0 {
                self.step_index == 0
            } else {
                self.step_index % self.config.compaction_interval_steps == 0
            })
            ||| self.dead_count() * 4 >= self.organisms.len()
        })
    }

    /// Index that the next child would take, where 16 bits can hold it.
    pub open spec fn next_child_index(self) -> Option<u16> {
        if self.organisms.len() <= u16::MAX {
            Some(self.organisms.len() as u16)
        } else {
            None
        }
    }

    /// The state after the organisms named by the first `upto` entries of
    /// `indices` have been declared dead, one after the other.
    pub open spec fn after_deaths(self, indices: Seq<usize>, upto: int) -> Self
        decreases upto,
    {
        if upto <= 0 {
            self
        } else {
            self.after_deaths(indices, upto - 1).after_death(indices[upto - 1] as int)
        }
    }

    /// Positions of the living organisms before `upto`, in index order.
    pub open spec fn alive_indices_before(self, upto: int) -> Seq<usize>
        decreases upto,
    {
        if upto <= 0 {
            Seq::empty()
        } else {
            let rest = self.alive_indices_before(upto - 1);
            if self.organisms[upto - 1].alive {
                rest.push((upto - 1) as usize)
            } else {
                rest
            }
        }
    }

    /// Whether a birth with `wanted` agents takes place: the child's index
    /// fits 16 bits and the child has at least one agent.
    pub open spec fn can_bear(self, wanted: nat) -> bool {
        self.next_child_index() is Some && wanted > 0
    }

    /// The agents of a child born now with the payloads `bodies`: one for
    /// each payload; they take the next identities in order and name the
    /// child's index.
    pub open spec fn child_agents(self, bodies: Seq<A>) -> Seq<Agent<A>> {
        Seq::new(
            bodies.len(),
            |j: int|
                Agent {
                    id: (self.next_agent_id + j) as u32,
                    organism_id: self.organisms.len() as u16,
                    body: bodies[j],
                },
        )
    }

    /// `self` is `pre` after organism `parent` has borne a child with genome
    /// `genome`, continuous state `body` and agents with payloads `bodies`.
    pub open spec fn born_from(
        self,
        pre: Self,
        parent: int,
        genome: Genome<T>,
        bodies: Seq<A>,
        body: O,
    ) -> bool {
        let child = self.organisms[pre.organisms.len() as int];
        let mother = pre.organisms[parent];
        &&& self.agents == pre.agents + pre.child_agents(bodies)
        &&& self.agents.len() == pre.agents.len() + bodies.len()
        &&& self.organisms.len() == pre.organisms.len() + 1
        &&& forall|k: int|
            0 <= k < pre.organisms.len() ==> #[trigger] self.organisms[k] == pre.organisms[k]
        &&& child.id == pre.organisms.len() as u16
        &&& child.stable_id == pre.next_organism_stable_id
        &&& child.generation == mother.generation + 1
        &&& child.age_steps == 0
        &&& child.alive
        &&& child.agent_ids@ == Seq::new(bodies.len(), |j: int| (pre.next_agent_id + j) as u32)
        &&& child.parent_stable_id == Some(mother.stable_id)
        &&& child.genome == genome
        &&& child.ancestor_genome@ == mother.ancestor_genome@
        &&& child.nn.weights() == child_weights(&genome, &mother.nn)
        &&& child.body == body
        &&& self.config == pre.config
        &&& self.next_agent_id == pre.next_agent_id + bodies.len()
        &&& self.next_organism_stable_id == if pre.next_organism_stable_id < u64::MAX {
            (pre.next_organism_stable_id + 1) as u64
        } else {
            u64::MAX
        }
        &&& self.step_index == pre.step_index
        &&& self.births_last_step == pre.births_last_step + 1
        &&& self.deaths_last_step == pre.deaths_last_step
        &&& self.total_births == pre.total_births + 1
        &&& self.total_deaths == pre.total_deaths
        &&& self.agent_id_exhaustions_last_step == pre.agent_id_exhaustions_last_step
        &&& self.total_agent_id_exhaustions == pre.total_agent_id_exhaustions
        &&& self.lifespans == pre.lifespans
        &&& self.lineage_events == pre.lineage_events.push(
            LineageEvent {
                step: pre.step_index,
                parent_stable_id: mother.stable_id,
                child_stable_id: pre.next_organism_stable_id,
                generation: (mother.generation + 1) as u32,
            },
        )
    }

    /// The organisms among the first `upto` that may reproduce: alive and
    /// marked fit, in index order.
    pub open spec fn eligible_before(self, fit: Seq<bool>, upto: int) -> Seq<usize>
        decreases upto,
    {
        if upto <= 0 {
            Seq::empty()
        } else {
            let rest = self.eligible_before(fit, upto - 1);
            if self.organisms[upto - 1].alive && fit[upto - 1] {
                rest.push((upto - 1) as usize)
            } else {
                rest
            }
        }
    }
}

impl<T: Copy, A, O> World<T, A, O> {
    /// Declares organism `org_idx` dead and says whether that changed
    /// anything. An index beyond the array and an organism already dead are
    /// left alone.
    pub fn mark_dead(&mut self, org_idx: usize) -> (died: bool)
        requires
            old(self).wf(),
            org_idx < old(self)@.organisms.len() && old(self)@.organisms[org_idx as int].alive
                ==> old(self)@.total_deaths < usize::MAX,
        ensures
            final(self).wf(),
            final(self)@ == old(self)@.after_death(org_idx as int),
            died == (org_idx < old(self)@.organisms.len()
                && old(self)@.organisms[org_idx as int].alive),
    {
        if org_idx < self.organisms.len() {
            if self.organisms[org_idx].alive {
                let age: usize = self.organisms[org_idx].age_steps;
                self.lifespans.push(age);
                self.organisms[org_idx].alive = false;
                self.deaths_last_step = self.deaths_last_step + 1;
                self.total_deaths = self.total_deaths + 1;
                return true;
            }
        }
        false
    }

    /// Whether every organism is alive.
    pub fn all_alive(&self) -> (b: bool)
        ensures
            b == self@.all_alive(),
    {
        let mut k: usize = 0;
        while k < self.organisms.len()
            invariant
                k <= self.organisms@.len(),
                forall|j: int| 0 <= j < k ==> (#[trigger] self.organisms@[j]).alive,
            decreases self.organisms@.len() - k,
        {
            if !self.organisms[k].alive {
                return false;
            }
            k = k + 1;
        }
        true
    }

    /// Removes the dead organisms and their agents, and renumbers the rest.
    pub fn prune_dead_entities(&mut self)
        requires
            old(self).wf(),
        ensures
            final(self).wf(),
            final(self)@.compacted_from(old(self)@),
            final(self)@.all_alive(),
    {
        if self.all_alive() {
            return ;
        }
        let ghost pre = self@;
        let mut old_organisms: Vec<Organism<T, O>> = Vec::new();
        std::mem::swap(&mut old_organisms, &mut self.organisms);
        let mut remap: Vec<Option<u16>> = Vec::with_capacity(old_organisms.len());
        let mut new_organisms: Vec<Organism<T, O>> = Vec::with_capacity(old_organisms.len());
        for org in it: old_organisms.into_iter()
            invariant
                it.seq() == pre.organisms,
                pre.wf(),
                remap@.len() == it.index(),
                new_organisms@.len() == pre.alive_before(it.index() as int),
                forall|k: int|
                    0 <= k < remap@.len() ==> #[trigger] remap@[k] == if pre.organisms[k].alive {
                        Some(pre.alive_before(k) as u16)
                    } else {
                        None::<u16>
                    },
                forall|k: int|
                    0 <= k < it.index() && (#[trigger] pre.organisms[k]).alive
                        ==> new_organisms@[pre.alive_before(k) as int].same_but_links(
                        &pre.organisms[k],
                    ),
                forall|j: int|
                    0 <= j < new_organisms@.len() ==> {
                        &&& (#[trigger] new_organisms@[j]).id == j as u16
                        &&& new_organisms@[j].agent_ids@.len() == 0
                        &&& new_organisms@[j].genomes_wf()
                        &&& new_organisms@[j].alive
                        &&& (new_organisms@[j].stable_id < pre.next_organism_stable_id
                            || pre.next_organism_stable_id == u64::MAX)
                    },
        {
            let ghost index = it.index() as int;
            proof {
                pre.lemma_alive_before_monotone(0, index);
            }
            let mut org = org;
            if org.alive {
                let new_id: u16 = #[verifier::truncate] (new_organisms.len() as u16);
                remap.push(Some(new_id));
                org.id = new_id;
                org.agent_ids.clear();
                new_organisms.push(org);
                proof {
                    assert forall|k: int|
                        0 <= k < index + 1 && (
                        #[trigger] pre.organisms[k]).alive implies new_organisms@[pre.alive_before(
                        k,
                    ) as int].same_but_links(&pre.organisms[k]) by {
                        if k < index {
                            pre.lemma_alive_before_monotone(k + 1, index);
                        }
                    }
                }
            } else {
                remap.push(None);
            }
        }
        let mut old_agents: Vec<Agent<A>> = Vec::new();
        std::mem::swap(&mut old_agents, &mut self.agents);
        let mut new_agents: Vec<Agent<A>> = Vec::with_capacity(old_agents.len());
        for agent in it: old_agents.into_iter()
            invariant
                it.seq() == pre.agents,
                pre.wf(),
                remap@.len() == pre.organisms.len(),
                forall|k: int|
                    0 <= k < remap@.len() ==> #[trigger] remap@[k] == if pre.organisms[k].alive {
                        Some(pre.alive_before(k) as u16)
                    } else {
                        None::<u16>
                    },
                new_agents@ == pre.kept_agents(it.index() as int),
        {
            let mut agent = agent;
            match remap[agent.organism_id as usize] {
                Some(new_org_id) => {
                    agent.organism_id = new_org_id;
                    new_agents.push(agent);
                },
                None => {},
            }
        }
        self.organisms = new_organisms;
        self.agents = new_agents;
        proof {
            assert forall|i: int| 0 <= i < self.agents@.len() implies (
            #[trigger] self.agents@[i]).organism_id < self.organisms@.len() by {
                pre.lemma_kept_agents_origin(pre.agents.len() as int, i);
                let o = choose|o: int|
                    0 <= o < pre.agents.len() && pre.organisms[(
                    #[trigger] pre.agents[o]).organism_id as int].alive && self.agents@[i].id
                        == pre.agents[o].id && self.agents@[i].body == pre.agents[o].body
                        && self.agents@[i].organism_id == pre.alive_before(
                        pre.agents[o].organism_id as int,
                    ) as u16;
                pre.lemma_rank_in_range(pre.agents[o].organism_id as int);
            }
        }
        link_agents(&mut self.organisms, &self.agents);
        proof {
            pre.lemma_kept_agents_len(pre.agents.len() as int);
            assert forall|i: int| 0 <= i < self@.agents.len() implies (
            #[trigger] self@.agents[i]).id < self@.next_agent_id || self@.next_agent_id
                == u32::MAX by {
                pre.lemma_kept_agents_origin(pre.agents.len() as int, i);
            }
            assert forall|k: int|
                0 <= k < pre.organisms.len() && (
                #[trigger] pre.organisms[k]).alive implies self@.organisms[pre.alive_before(
                k,
            ) as int].same_but_links(&pre.organisms[k]) by {
                pre.lemma_rank_in_range(k);
            }
        }
    }

    /// Number of organisms that are alive.
    pub fn alive_count(&self) -> (n: usize)
        ensures
            n == self@.alive_count(),
            n <= self@.organisms.len(),
    {
        let mut n: usize = 0;
        let mut k: usize = 0;
        while k < self.organisms.len()
            invariant
                k <= self.organisms@.len(),
                n == self@.alive_before(k as int),
                n <= k,
            decreases self.organisms@.len() - k,
        {
            if self.organisms[k].alive {
                n = n + 1;
            }
            k = k + 1;
        }
        n
    }

    /// Whether compaction is due.
    pub fn compaction_due(&self) -> (due: bool)
        ensures
            due == self@.compaction_due(),
    {
        let len: usize = self.organisms.len();
        let dead: usize = len - self.alive_count();
        if dead == 0 {
            return false;
        }
        if self.step_index.is_multiple_of(self.config.compaction_interval_steps) {
            return true;
        }
        let quarter: usize = len / 4;
        let rounded_up: usize = if len % 4 == 0 {
            quarter
        } else {
            quarter + 1
        };
        dead >= rounded_up
    }

    /// Runs compaction where it is due and says whether it ran.
    pub fn compact_if_due(&mut self) -> (ran: bool)
        requires
            old(self).wf(),
        ensures
            final(self).wf(),
            ran == old(self)@.compaction_due(),
            ran ==> final(self)@.compacted_from(old(self)@),
            !ran ==> final(self)@ == old(self)@,
    {
        if self.compaction_due() {
            self.prune_dead_entities();
            true
        } else {
            false
        }
    }

    /// Lets organism `org_idx` live one more step and says whether it has
    /// now outlived the configured maximum age.
    pub fn age_organism(&mut self, org_idx: usize) -> (expired: bool)
        requires
            old(self).wf(),
        ensures
            final(self).wf(),
            final(self)@ == old(self)@.after_ageing(org_idx as int),
            expired == (org_idx < old(self)@.organisms.len()
                && old(self)@.organisms[org_idx as int].alive
                && final(self)@.organisms[org_idx as int].age_steps
                > old(self)@.config.max_organism_age_steps),
    {
        if org_idx < self.organisms.len() {
            if self.organisms[org_idx].alive {
                let age: usize = self.organisms[org_idx].age_steps.saturating_add(1);
                self.organisms[org_idx].age_steps = age;
                return age > self.config.max_organism_age_steps;
            }
        }
        false
    }

    /// Hands out the next agent identity, if one is left.
    pub fn next_agent_id_checked(&mut self) -> (id: Option<u32>)
        requires
            old(self).wf(),
        ensures
            final(self).wf(),
            old(self)@.next_agent_id == u32::MAX ==> id is None && final(self)@ == old(self)@,
            old(self)@.next_agent_id < u32::MAX ==> id == Some(old(self)@.next_agent_id)
                && final(self)@ == (WorldView {
                next_agent_id: (old(self)@.next_agent_id + 1) as u32,
                ..old(self)@
            }),
    {
        if self.next_agent_id == u32::MAX {
            return None;
        }
        let id: u32 = self.next_agent_id;
        self.next_agent_id = self.next_agent_id + 1;
        Some(id)
    }

    /// Number of agent identities that can still be handed out.
    pub fn ids_left(&self) -> (n: u32)
        ensures
            n == self@.ids_left(),
    {
        u32::MAX - self.next_agent_id
    }

    /// The answer that a parent whose child would have `child_agents` agents
    /// would get now. Nothing is counted.
    pub fn admission(&self, child_agents: usize) -> (answer: Admission)
        ensures
            answer == self@.admission(child_agents as nat),
    {
        if child_agents > MAX_TOTAL_AGENTS || self.agents.len() > MAX_TOTAL_AGENTS - child_agents {
            Admission::Full
        } else if (self.ids_left() as u64) < child_agents as u64 {
            Admission::Exhausted
        } else {
            Admission::Admit
        }
    }

    /// Answers a parent whose child would have `child_agents` agents, and
    /// counts the event where fewer identities are left than the child
    /// needs.
    pub fn admit_birth(&mut self, child_agents: usize) -> (answer: Admission)
        requires
            old(self).wf(),
            old(self)@.admission(child_agents as nat) == Admission::Exhausted
                ==> old(self)@.total_agent_id_exhaustions < usize::MAX,
        ensures
            final(self).wf(),
            answer == old(self)@.admission(child_agents as nat),
            final(self)@ == old(self)@.after_admission(child_agents as nat),
    {
        let answer = self.admission(child_agents);
        match answer {
            Admission::Exhausted => {
                self.agent_id_exhaustions_last_step = self.agent_id_exhaustions_last_step + 1;
                self.total_agent_id_exhaustions = self.total_agent_id_exhaustions + 1;
            },
            _ => {},
        }
        answer
    }

    /// Index that the next child would take, where 16 bits can hold it.
    pub fn next_child_index(&self) -> (index: Option<u16>)
        ensures
            index == self@.next_child_index(),
    {
        let len: usize = self.organisms.len();
        if len <= 65535 {
            Some(len as u16)
        } else {
            None
        }
    }

    /// Declares dead, one after the other, the organisms that `indices`
    /// names, and returns for each whether that changed anything.
    pub fn mark_all_dead(&mut self, indices: &[usize]) -> (died: Vec<bool>)
        requires
            old(self).wf(),
            old(self)@.total_deaths + indices@.len() <= usize::MAX,
        ensures
            final(self).wf(),
            final(self)@ == old(self)@.after_deaths(indices@, indices@.len() as int),
            died@.len() == indices@.len(),
            forall|k: int|
                0 <= k < indices@.len() ==> #[trigger] died@[k] == (indices@[k]
                    < old(self)@.organisms.len() && old(self)@.after_deaths(
                    indices@,
                    k,
                ).organisms[indices@[k] as int].alive),
    {
        let mut died: Vec<bool> = Vec::with_capacity(indices.len());
        let mut k: usize = 0;
        while k < indices.len()
            invariant
                k <= indices@.len(),
                self.wf(),
                self@ == old(self)@.after_deaths(indices@, k as int),
                self@.total_deaths <= old(self)@.total_deaths + k,
                self@.organisms.len() == old(self)@.organisms.len(),
                old(self)@.total_deaths + indices@.len() <= usize::MAX,
                died@.len() == k,
                forall|j: int|
                    0 <= j < k ==> #[trigger] died@[j] == (indices@[j]
                        < old(self)@.organisms.len() && old(self)@.after_deaths(
                        indices@,
                        j,
                    ).organisms[indices@[j] as int].alive),
            decreases indices@.len() - k,
        {
            let one: bool = self.mark_dead(indices[k]);
            died.push(one);
            k = k + 1;
        }
        died
    }

    /// Positions of the living organisms, in index order.
    pub fn alive_indices(&self) -> (alive: Vec<usize>)
        ensures
            alive@ == self@.alive_indices_before(self@.organisms.len() as int),
    {
        let mut alive: Vec<usize> = Vec::new();
        let mut k: usize = 0;
        while k < self.organisms.len()
            invariant
                k <= self.organisms@.len(),
                alive@ == self@.alive_indices_before(k as int),
            decreases self.organisms@.len() - k,
        {
            if self.organisms[k].alive {
                alive.push(k);
            }
            k = k + 1;
        }
        alive
    }

    /// The organisms that may reproduce, in index order: those alive whose
    /// entry in `fit` is set.
    pub fn eligible_parents(&self, fit: &[bool]) -> (parents: Vec<usize>)
        requires
            fit@.len() == self@.organisms.len(),
        ensures
            parents@ == self@.eligible_before(fit@, self@.organisms.len() as int),
    {
        let mut parents: Vec<usize> = Vec::new();
        let mut k: usize = 0;
        while k < self.organisms.len()
            invariant
                k <= self.organisms@.len(),
                fit@.len() == self@.organisms.len(),
                parents@ == self@.eligible_before(fit@, k as int),
            decreases self.organisms@.len() - k,
        {
            if self.organisms[k].alive && fit[k] {
                parents.push(k);
            }
            k = k + 1;
        }
        parents
    }

    /// Lets organism `parent_idx` bear a child with one agent for each
    /// payload in `agent_bodies`, and returns the child's index. There must
    /// be an identity left for every agent, as there is after an admission.
    /// No birth takes place, and nothing changes, where the child's index
    /// does not fit 16 bits or the child would have no agent. The child's
    /// controller is decoded from `child_genome`, or from the parent's
    /// weights where the genome's neural segment has not 212 values; its
    /// ancestor genome is the parent's.
    pub fn spawn_child(
        &mut self,
        parent_idx: usize,
        child_genome: Genome<T>,
        agent_bodies: Vec<A>,
        body: O,
    ) -> (child: Option<u16>)
        requires
            old(self).wf(),
            parent_idx < old(self)@.organisms.len(),
            child_genome.wf(),
            old(self)@.agents.len() + agent_bodies@.len() <= MAX_TOTAL_AGENTS,
            agent_bodies@.len() <= old(self)@.ids_left(),
            old(self)@.can_bear(agent_bodies@.len()) ==> old(self)@.total_births < usize::MAX
                && old(self)@.organisms[parent_idx as int].generation < u32::MAX,
        ensures
            final(self).wf(),
            !old(self)@.can_bear(agent_bodies@.len()) ==> child is None && final(self)@
                == old(self)@,
            old(self)@.can_bear(agent_bodies@.len()) ==> child == old(self)@.next_child_index()
                && final(self)@.born_from(
                old(self)@,
                parent_idx as int,
                child_genome,
                agent_bodies@,
                body,
            ),
    {
        let ghost pre = self@;
        let child_id: u16 = match self.next_child_index() {
            Some(id) => id,
            None => {
                return None;
            },
        };
        if agent_bodies.len() == 0 {
            return None;
        }
        let count: usize = agent_bodies.len();
        let first: u32 = self.next_agent_id;
        let child_nn = controller_for(&child_genome, &self.organisms[parent_idx].nn);
        let ancestor_genome = self.organisms[parent_idx].ancestor_genome.clone();
        let parent_generation: u32 = self.organisms[parent_idx].generation;
        let parent_stable_id: u64 = self.organisms[parent_idx].stable_id;
        let mut child_agent_ids: Vec<u32> = Vec::with_capacity(count);
        let ghost bodies = agent_bodies@;
        proof {
            lemma_owned_ids_of_stranger(pre.agents, child_id as int);
        }
        for agent_body in it: agent_bodies.into_iter()
            invariant
                it.seq() == bodies,
                pre.wf(),
                pre.agents.len() + bodies.len() <= MAX_TOTAL_AGENTS,
                child_id == pre.organisms.len(),
                first == pre.next_agent_id,
                bodies.len() <= pre.ids_left(),
                self.organisms@ == pre.organisms,
                self.config == pre.config,
                self.next_organism_stable_id == pre.next_organism_stable_id,
                self.step_index == pre.step_index,
                self.births_last_step == pre.births_last_step,
                self.deaths_last_step == pre.deaths_last_step,
                self.total_births == pre.total_births,
                self.total_deaths == pre.total_deaths,
                self.agent_id_exhaustions_last_step == pre.agent_id_exhaustions_last_step,
                self.total_agent_id_exhaustions == pre.total_agent_id_exhaustions,
                self.lifespans@ == pre.lifespans,
                self.lineage_events@ == pre.lineage_events,
                child_agent_ids@.len() == it.index(),
                self.next_agent_id == first + child_agent_ids@.len(),
                self.agents@ == pre.agents + pre.child_agents(bodies).take(
                    child_agent_ids@.len() as int,
                ),
                forall|j: int|
                    0 <= j < child_agent_ids@.len() ==> #[trigger] child_agent_ids@[j] == (first
                        + j) as u32,
                forall|k: int|
                    0 <= k < pre.organisms.len() ==> #[trigger] owned_ids(self.agents@, k)
                        == owned_ids(pre.agents, k),
                owned_ids(self.agents@, child_id as int) == child_agent_ids@,
        {
            let id: u32 = self.next_agent_id;
            self.next_agent_id = self.next_agent_id + 1;
            let ghost before = self.agents@;
            self.agents.push(Agent { id, organism_id: child_id, body: agent_body });
            child_agent_ids.push(id);
            proof {
                assert(self.agents@.drop_last() =~= before);
                assert forall|k: int| 0 <= k < pre.organisms.len() implies #[trigger] owned_ids(
                    self.agents@,
                    k,
                ) == owned_ids(pre.agents, k) by {
                    assert(owned_ids(before, k) == owned_ids(pre.agents, k));
                }
            }
        }
        let child_stable_id: u64 = self.next_organism_stable_id;
        let child_generation: u32 = parent_generation + 1;
        let organism = Organism {
            id: child_id,
            stable_id: child_stable_id,
            generation: child_generation,
            age_steps: 0,
            alive: true,
            agent_ids: child_agent_ids,
            parent_stable_id: Some(parent_stable_id),
            genome: child_genome,
            ancestor_genome,
            nn: child_nn,
            body,
        };
        self.next_organism_stable_id = self.next_organism_stable_id.saturating_add(1);
        self.lineage_events.push(
            LineageEvent {
                step: self.step_index,
                parent_stable_id,
                child_stable_id,
                generation: child_generation,
            },
        );
        self.organisms.push(organism);
        self.births_last_step = self.births_last_step + 1;
        self.total_births = self.total_births + 1;
        proof {
            let spawned = pre.child_agents(bodies);
            assert(spawned.take(spawned.len() as int) =~= spawned);
            assert(self@.organisms[child_id as int].agent_ids@ =~= Seq::new(
                bodies.len(),
                |j: int| (pre.next_agent_id + j) as u32,
            ));
        }
        Some(child_id)
    }

    /// Opens a step: advances the step index and clears the per-step counters.
    pub fn begin_step(&mut self)
        requires
            old(self).wf(),
        ensures
            final(self).wf(),
            final(self)@ == old(self)@.after_step_start(),
    {
        self.step_index = self.step_index.saturating_add(1);
        self.births_last_step = 0;
        self.deaths_last_step = 0;
        self.agent_id_exhaustions_last_step = 0;
    }
}

} // verus!
