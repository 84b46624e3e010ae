//! Agents: points that belong to exactly one organism.

use vstd::prelude::*;

verus! {

/// One agent. `body` carries its physical state (position, velocity,
/// internal pools), which this crate stores and moves but never reads.
#[derive(Clone, Debug)]
pub struct Agent<A> {
    /// Identity, unique within a run and never reused.
    pub id: u32,
    /// Index of the owning organism in the world's organism array.
    pub organism_id: u16,
    /// Physical state.
    pub body: A,
}

impl<A> Agent<A> {
    /// An agent with the given identity, owner and physical state.
    pub fn new(id: u32, organism_id: u16, body: A) -> (agent: Self)
        ensures
            agent.id == id,
            agent.organism_id == organism_id,
            agent.body == body,
    {
        Agent { id, organism_id, body }
    }
}

/// Identities of the agents that organism `org` owns, in agent order.
pub open spec fn owned_ids<A>(agents: Seq<Agent<A>>, org: int) -> Seq<u32>
    decreases agents.len(),
{
    if agents.len() == 0 {
        Seq::empty()
    } else {
        let rest = owned_ids(agents.drop_last(), org);
        if agents.last().organism_id == org {
            rest.push(agents.last().id)
        } else {
            rest
        }
    }
}

/// Position, in the list of founder agents, of agent `i` of organism `org`
/// when every organism has `per_organism` agents.
pub open spec fn founder_slot(org: int, per_organism: int, i: int) -> int {
    org * per_organism + i
}

/// The agents of one organism stand before those of the next.
proof fn lemma_founder_slot_bound(org: int, per_organism: int, i: int, limit: int)
    requires
        0 <= org < limit,
        0 <= i < per_organism,
    ensures
        0 <= founder_slot(org, per_organism, i) < limit * per_organism,
        founder_slot(org, per_organism, i) < founder_slot(org + 1, per_organism, 0),
{
    assert(org * per_organism + i < (org + 1) * per_organism <= limit * per_organism
        && org * per_organism >= 0) by (nonlinear_arith)
        requires
            0 <= org < limit,
            0 <= i < per_organism,
    ;
}

/// Identity and owner of every founder agent, organism after organism: the
/// agent at `founder_slot(org, agents_per_organism, i)` belongs to organism
/// `org` and carries its own position as identity. The organisms must fit 16
/// bits and the identities 32.
pub fn founder_links(num_organisms: usize, agents_per_organism: usize) -> (links: Vec<(u32, u16)>)
    requires
        num_organisms <= u16::MAX + 1,
        num_organisms * agents_per_organism <= u32::MAX + 1,
    ensures
        links@.len() == num_organisms * agents_per_organism,
        forall|org: int, i: int|
            0 <= org < num_organisms && 0 <= i < agents_per_organism ==> links@[#[trigger] founder_slot(
                org,
                agents_per_organism as int,
                i,
            )] == (founder_slot(org, agents_per_organism as int, i) as u32, org as u16),
{
    let mut links: Vec<(u32, u16)> = Vec::new();
    let mut org: usize = 0;
    while org < num_organisms
        invariant
            org <= num_organisms,
            num_organisms <= u16::MAX + 1,
            num_organisms * agents_per_organism <= u32::MAX + 1,
            links@.len() == founder_slot(org as int, agents_per_organism as int, 0),
            forall|o: int, i: int|
                0 <= o < org && 0 <= i < agents_per_organism ==> links@[#[trigger] founder_slot(
                    o,
                    agents_per_organism as int,
                    i,
                )] == (founder_slot(o, agents_per_organism as int, i) as u32, o as u16),
        decreases num_organisms - org,
    {
        let mut i: usize = 0;
        while i < agents_per_organism
            invariant
                org < num_organisms,
                i <= agents_per_organism,
                num_organisms <= u16::MAX + 1,
                num_organisms * agents_per_organism <= u32::MAX + 1,
                links@.len() == founder_slot(org as int, agents_per_organism as int, i as int),
                forall|o: int, k: int|
                    0 <= o < org && 0 <= k < agents_per_organism ==> links@[#[trigger] founder_slot(
                        o,
                        agents_per_organism as int,
                        k,
                    )] == (founder_slot(o, agents_per_organism as int, k) as u32, o as u16),
                forall|k: int|
                    0 <= k < i ==> links@[#[trigger] founder_slot(
                        org as int,
                        agents_per_organism as int,
                        k,
                    )] == (
                        founder_slot(org as int, agents_per_organism as int, k) as u32,
                        org as u16,
                    ),
            decreases agents_per_organism - i,
        {
            proof {
                lemma_founder_slot_bound(
                    org as int,
                    agents_per_organism as int,
                    i as int,
                    num_organisms as int,
                );
                assert forall|o: int, k: int|
                    0 <= o < org && 0 <= k < agents_per_organism implies #[trigger] founder_slot(
                    o,
                    agents_per_organism as int,
                    k,
                ) < links@.len() by {
                    lemma_founder_slot_bound(o, agents_per_organism as int, k, org as int);
                }
            }
            let id: usize = org * agents_per_organism + i;
            links.push((id as u32, org as u16));
            i = i + 1;
        }
        proof {
            assert((org + 1) * agents_per_organism == org * agents_per_organism
                + agents_per_organism) by (nonlinear_arith);
        }
        org = org + 1;
    }
    links
}

/// Largest identity among `agents`, or 0 when there is none.
pub open spec fn max_agent_id<A>(agents: Seq<Agent<A>>) -> nat
    decreases agents.len(),
{
    if agents.len() == 0 {
        0
    } else {
        let rest = max_agent_id(agents.drop_last());
        if agents.last().id > rest {
            agents.last().id as nat
        } else {
            rest
        }
    }
}

/// No identity among `agents` exceeds their maximum.
pub proof fn lemma_max_agent_id_bounds<A>(agents: Seq<Agent<A>>)
    ensures
        max_agent_id(agents) <= u32::MAX,
        forall|i: int| 0 <= i < agents.len() ==> (#[trigger] agents[i]).id <= max_agent_id(agents),
    decreases agents.len(),
{
    if agents.len() > 0 {
        lemma_max_agent_id_bounds(agents.drop_last());
        assert forall|i: int| 0 <= i < agents.len() implies (#[trigger] agents[i]).id
            <= max_agent_id(agents) by {
            if i < agents.len() - 1 {
                assert(agents.drop_last()[i] == agents[i]);
            }
        }
    }
}

/// An organism that no agent refers to owns no identities.
pub proof fn lemma_owned_ids_of_stranger<A>(agents: Seq<Agent<A>>, org: int)
    requires
        forall|i: int| 0 <= i < agents.len() ==> (#[trigger] agents[i]).organism_id != org,
    ensures
        owned_ids(agents, org) == Seq::<u32>::empty(),
    decreases agents.len(),
{
    if agents.len() > 0 {
        lemma_owned_ids_of_stranger(agents.drop_last(), org);
    }
}

/// `a` and `b` hold agents with the same identities and owners, position by
/// position.
pub open spec fn same_links<A>(a: Seq<Agent<A>>, b: Seq<Agent<A>>) -> bool {
    &&& a.len() == b.len()
    &&& forall|i: int|
        0 <= i < a.len() ==> (#[trigger] a[i]).id == b[i].id && a[i].organism_id
            == b[i].organism_id
}

/// What an organism owns depends on the agents' identities and owners alone.
pub proof fn lemma_owned_ids_same_links<A>(a: Seq<Agent<A>>, b: Seq<Agent<A>>, org: int)
    requires
        same_links(a, b),
    ensures
        owned_ids(a, org) == owned_ids(b, org),
    decreases a.len(),
{
    if a.len() > 0 {
        lemma_owned_ids_same_links(a.drop_last(), b.drop_last(), org);
    }
}

/// Every agent's identity stands among those that its organism owns.
pub proof fn lemma_agent_is_owned<A>(agents: Seq<Agent<A>>, i: int)
    requires
        0 <= i < agents.len(),
    ensures
        owned_ids(agents, agents[i].organism_id as int).contains(agents[i].id),
    decreases agents.len(),
{
    let org = agents[i].organism_id as int;
    let rest = owned_ids(agents.drop_last(), org);
    if i == agents.len() - 1 {
        assert(owned_ids(agents, org)[rest.len() as int] == agents[i].id);
    } else {
        lemma_agent_is_owned(agents.drop_last(), i);
        let j = choose|j: int| 0 <= j < rest.len() && rest[j] == agents[i].id;
        assert(owned_ids(agents, org)[j] == agents[i].id);
    }
}

} // verus!
