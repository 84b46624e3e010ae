//! The reproduction pass of a step: which parents are offered a birth, in
//! which order, and when the pass ends.
//!
//! The caller decides what only it can know (whether a parent can still pay
//! for a child, what the child's genome and payloads are); the pass decides
//! the rest.

use crate::config::MAX_TOTAL_AGENTS;
use crate::genome::Genome;
use crate::world::lifecycle::Admission;
use crate::world::World;
use crate::world::WorldView;
use vstd::prelude::*;

verus! {

/// The progress of one reproduction pass.
pub struct ReproductionPass {
    parents: Vec<usize>,
    cursor: usize,
    child_agents: usize,
    closed: bool,
}

/// A reproduction pass as contracts see it.
pub struct PassView {
    /// The parents of the pass, in the order in which they are offered.
    pub parents: Seq<usize>,
    /// Number of parents offered so far.
    pub cursor: nat,
    /// Number of agents asked for each child.
    pub child_agents: nat,
    /// The pass has ended.
    pub closed: bool,
}

impl View for ReproductionPass {
    type V = PassView;

    closed spec fn view(&self) -> PassView {
        PassView {
            parents: self.parents@,
            cursor: self.cursor as nat,
            child_agents: self.child_agents as nat,
            closed: self.closed,
        }
    }
}

impl PassView {
    /// The cursor lies within the list of parents.
    pub open spec fn wf(self) -> bool {
        self.cursor <= self.parents.len()
    }

    /// No parent is left to offer, or the pass has ended.
    pub open spec fn exhausted(self) -> bool {
        self.closed || self.cursor >= self.parents.len()
    }
}

impl ReproductionPass {
    /// The invariant of a pass.
    pub open spec fn wf(&self) -> bool {
        self@.wf()
    }

    /// Whether the pass has no parent at all.
    pub fn is_empty(&self) -> (b: bool)
        ensures
            b == (self@.parents.len() == 0),
    {
        self.parents.len() == 0
    }

    /// Number of agents asked for each child.
    pub fn child_agents(&self) -> (n: usize)
        ensures
            n == self@.child_agents,
    {
        self.child_agents
    }

    /// Whether no parent is left to offer or the pass has ended.
    pub fn is_exhausted(&self) -> (b: bool)
        ensures
            b == self@.exhausted(),
    {
        self.closed || self.cursor >= self.parents.len()
    }

    /// Whether the pass has ended.
    pub fn is_closed(&self) -> (b: bool)
        ensures
            b == self@.closed,
    {
        self.closed
    }
}

impl<T: Copy, A, O> World<T, A, O> {
    /// Opens a reproduction pass over the organisms that are alive and
    /// marked fit, in index order. Each child is asked to have the
    /// configured number of agents.
    pub fn begin_reproduction(&self, fit: &[bool]) -> (pass: ReproductionPass)
        requires
            fit@.len() == self@.organisms.len(),
        ensures
            pass.wf(),
            pass@ == (PassView {
                parents: self@.eligible_before(fit@, self@.organisms.len() as int),
                cursor: 0,
                child_agents: self@.config.spec_child_agent_count(),
                closed: false,
            }),
    {
        ReproductionPass {
            parents: self.eligible_parents(fit),
            cursor: 0,
            child_agents: self.config().child_agent_count(),
            closed: false,
        }
    }

    /// Offers the next parent of the pass a birth. The pass ends, and
    /// nothing is offered, where no parent is left, where the child's agents
    /// would exceed the cap on agents, or where fewer agent identities are
    /// left than the child needs; the last case is counted. Otherwise the
    /// parent at the cursor is returned and the cursor moves on; the world
    /// then has room and identities for all agents of the child.
    pub fn next_parent(&mut self, pass: &mut ReproductionPass) -> (parent: Option<usize>)
        requires
            old(self).wf(),
            old(pass).wf(),
            !old(pass)@.exhausted() && old(self)@.admission(old(pass)@.child_agents)
                == Admission::Exhausted ==> old(self)@.total_agent_id_exhaustions < usize::MAX,
        ensures
            final(self).wf(),
            final(pass).wf(),
            final(pass)@.parents == old(pass)@.parents,
            final(pass)@.child_agents == old(pass)@.child_agents,
            old(pass)@.exhausted() ==> {
                &&& parent is None
                &&& final(self)@ == old(self)@
                &&& final(pass)@.closed
                &&& final(pass)@.cursor == old(pass)@.cursor
            },
            !old(pass)@.exhausted() ==> {
                &&& final(self)@ == old(self)@.after_admission(old(pass)@.child_agents)
                &&& match old(self)@.admission(old(pass)@.child_agents) {
                    Admission::Admit => {
                        &&& parent == Some(old(pass)@.parents[old(pass)@.cursor as int])
                        &&& final(pass)@.cursor == old(pass)@.cursor + 1
                        &&& !final(pass)@.closed
                        &&& final(self)@.agents.len() + final(pass)@.child_agents
                            <= MAX_TOTAL_AGENTS
                        &&& final(pass)@.child_agents <= final(self)@.ids_left()
                    },
                    _ => {
                        &&& parent is None
                        &&& final(pass)@.closed
                        &&& final(pass)@.cursor == old(pass)@.cursor
                    },
                }
            },
    {
        if pass.closed || pass.cursor >= pass.parents.len() {
            pass.closed = true;
            return None;
        }
        match self.admit_birth(pass.child_agents) {
            Admission::Admit => {
                let parent: usize = pass.parents[pass.cursor];
                pass.cursor = pass.cursor + 1;
                Some(parent)
            },
            Admission::Full => {
                pass.closed = true;
                None
            },
            Admission::Exhausted => {
                pass.closed = true;
                None
            },
        }
    }

    /// Number of agents that the caller places for the child at hand: all
    /// that were asked for. The pass ends, and nothing is placed, where the
    /// child's index does not fit 16 bits.
    pub fn placements(&self, pass: &mut ReproductionPass) -> (placed: Option<usize>)
        requires
            old(pass).wf(),
        ensures
            final(pass).wf(),
            final(pass)@.parents == old(pass)@.parents,
            final(pass)@.cursor == old(pass)@.cursor,
            final(pass)@.child_agents == old(pass)@.child_agents,
            self@.next_child_index() is None ==> placed is None && final(pass)@.closed,
            self@.next_child_index() is Some ==> placed == Some(old(pass)@.child_agents as usize)
                && final(pass)@.closed == old(pass)@.closed,
    {
        match self.next_child_index() {
            Some(_) => Some(pass.child_agents),
            None => {
                pass.closed = true;
                None
            },
        }
    }

    /// Lets `parent_idx` bear the child that the caller prepared, with
    /// exactly the number of agents that the pass asks for. The pass ends
    /// where no birth takes place; see `spawn_child` for when that is and
    /// for what a birth changes.
    pub fn bear(
        &mut self,
        pass: &mut ReproductionPass,
        parent_idx: usize,
        child_genome: Genome<T>,
        agent_bodies: Vec<A>,
        body: O,
    ) -> (child: Option<u16>)
        requires
            old(self).wf(),
            old(pass).wf(),
            parent_idx < old(self)@.organisms.len(),
            child_genome.wf(),
            agent_bodies@.len() == old(pass)@.child_agents,
            old(self)@.agents.len() + agent_bodies@.len() <= MAX_TOTAL_AGENTS,
            agent_bodies@.len() <= old(self)@.ids_left(),
            old(self)@.can_bear(agent_bodies@.len()) ==> old(self)@.total_births < usize::MAX
                && old(self)@.organisms[parent_idx as int].generation < u32::MAX,
        ensures
            final(self).wf(),
            final(pass).wf(),
            final(pass)@.parents == old(pass)@.parents,
            final(pass)@.cursor == old(pass)@.cursor,
            final(pass)@.child_agents == old(pass)@.child_agents,
            !old(self)@.can_bear(agent_bodies@.len()) ==> {
                &&& child is None
                &&& final(self)@ == old(self)@
                &&& final(pass)@.closed
            },
            old(self)@.can_bear(agent_bodies@.len()) ==> {
                &&& child == old(self)@.next_child_index()
                &&& final(self)@.born_from(
                    old(self)@,
                    parent_idx as int,
                    child_genome,
                    agent_bodies@,
                    body,
                )
                &&& final(pass)@.closed == old(pass)@.closed
            },
    {
        let child = self.spawn_child(parent_idx, child_genome, agent_bodies, body);
        if child.is_none() {
            pass.closed = true;
        }
        child
    }
}

/// Every parent that a pass offers is an organism of the world that was
/// alive and marked fit when the pass was opened, and the parents come in
/// strictly increasing order: no organism is offered twice.
pub proof fn law_parents_are_eligible<T: Copy, A, O>(
    world: WorldView<T, A, O>,
    fit: Seq<bool>,
    upto: int,
)
    requires
        0 <= upto <= world.organisms.len(),
        world.organisms.len() <= usize::MAX,
    ensures
        forall|k: int|
            0 <= k < world.eligible_before(fit, upto).len() ==> {
                &&& (#[trigger] world.eligible_before(fit, upto)[k]) < upto
                &&& world.organisms[world.eligible_before(fit, upto)[k] as int].alive
                &&& fit[world.eligible_before(fit, upto)[k] as int]
            },
        forall|j: int, k: int|
            0 <= j < k < world.eligible_before(fit, upto).len() ==> world.eligible_before(
                fit,
                upto,
            )[j] < world.eligible_before(fit, upto)[k],
        forall|i: int|
            0 <= i < upto && (#[trigger] world.organisms[i]).alive && fit[i]
                ==> world.eligible_before(fit, upto).contains(i as usize),
    decreases upto,
{
    if upto > 0 {
        law_parents_are_eligible(world, fit, upto - 1);
        let rest = world.eligible_before(fit, upto - 1);
        let now = world.eligible_before(fit, upto);
        assert forall|i: int|
            0 <= i < upto && (#[trigger] world.organisms[i]).alive && fit[i] implies now.contains(
            i as usize,
        ) by {
            if i < upto - 1 {
                let k = choose|k: int| 0 <= k < rest.len() && rest[k] == i as usize;
                assert(now[k] == i as usize);
            } else {
                assert(now[rest.len() as int] == i as usize);
            }
        }
    }
}

} // verus!
