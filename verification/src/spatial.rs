//! Selection of the agents that enter the spatial index.

use crate::agent::Agent;
use vstd::prelude::*;

verus! {

/// Whether the agent's organism is flagged alive. An organism without a
/// flag counts as dead.
pub open spec fn is_active<A>(agent: Agent<A>, live_flags: Seq<bool>) -> bool {
    agent.organism_id < live_flags.len() && live_flags[agent.organism_id as int]
}

/// Positions of the active agents among the first `upto`, in agent order.
pub open spec fn active_before<A>(agents: Seq<Agent<A>>, live_flags: Seq<bool>, upto: int) -> Seq<
    usize,
>
    decreases upto,
{
    if upto <= 0 {
        Seq::empty()
    } else {
        let rest = active_before(agents, live_flags, upto - 1);
        if is_active(agents[upto - 1], live_flags) {
            rest.push((upto - 1) as usize)
        } else {
            rest
        }
    }
}

/// Whether `agent` belongs to an organism flagged alive.
pub fn agent_is_active<A>(agent: &Agent<A>, live_flags: &[bool]) -> (active: bool)
    ensures
        active == is_active(*agent, live_flags@),
{
    let owner: usize = agent.organism_id as usize;
    owner < live_flags.len() && live_flags[owner]
}

/// Positions of the agents whose organism is flagged alive, in agent order:
/// the agents that a spatial index is built over.
pub fn active_agents<A>(agents: &[Agent<A>], live_flags: &[bool]) -> (active: Vec<usize>)
    ensures
        active@ == active_before(agents@, live_flags@, agents@.len() as int),
{
    let mut active: Vec<usize> = Vec::new();
    let mut i: usize = 0;
    while i < agents.len()
        invariant
            i <= agents@.len(),
            active@ == active_before(agents@, live_flags@, i as int),
        decreases agents@.len() - i,
    {
        if agent_is_active(&agents[i], live_flags) {
            active.push(i);
        }
        i = i + 1;
    }
    active
}

/// The shifts, in world sides, of the copies of a query along one axis: the
/// query itself, then its copy moved up by one side where it reaches below
/// the world, then its copy moved down by one side where it reaches beyond.
pub open spec fn axis_shifts(reaches_below: bool, reaches_beyond: bool) -> Seq<i8> {
    seq![0i8] + (if reaches_below {
        seq![1i8]
    } else {
        Seq::<i8>::empty()
    }) + (if reaches_beyond {
        seq![-1i8]
    } else {
        Seq::<i8>::empty()
    })
}

/// Every pair of a shift along x among the first `upto` of `xs` with a
/// shift of `ys`, ordered by x, then by y.
pub open spec fn shift_pairs(xs: Seq<i8>, ys: Seq<i8>, upto: int) -> Seq<(i8, i8)>
    decreases upto,
{
    if upto <= 0 {
        Seq::empty()
    } else {
        shift_pairs(xs, ys, upto - 1) + Seq::new(ys.len(), |j: int| (xs[upto - 1], ys[j]))
    }
}

/// The shifts along one axis.
pub fn shifts_along(reaches_below: bool, reaches_beyond: bool) -> (shifts: Vec<i8>)
    ensures
        shifts@ == axis_shifts(reaches_below, reaches_beyond),
{
    let mut shifts: Vec<i8> = Vec::new();
    shifts.push(0);
    if reaches_below {
        shifts.push(1);
    }
    if reaches_beyond {
        shifts.push(-1);
    }
    assert(shifts@ =~= axis_shifts(reaches_below, reaches_beyond));
    shifts
}

/// The copies of a toroidal neighbour query that have to be searched: the
/// query itself first, then up to eight wrapped copies, one for each
/// combination of the shifts along the two axes.
pub fn query_offsets(
    below_x: bool,
    beyond_x: bool,
    below_y: bool,
    beyond_y: bool,
) -> (offsets: Vec<(i8, i8)>)
    ensures
        offsets@ == shift_pairs(
            axis_shifts(below_x, beyond_x),
            axis_shifts(below_y, beyond_y),
            axis_shifts(below_x, beyond_x).len() as int,
        ),
        1 <= offsets@.len() <= 9,
        offsets@[0] == (0i8, 0i8),
{
    let xs = shifts_along(below_x, beyond_x);
    let ys = shifts_along(below_y, beyond_y);
    let mut offsets: Vec<(i8, i8)> = Vec::new();
    let mut i: usize = 0;
    while i < xs.len()
        invariant
            i <= xs@.len(),
            1 <= ys@.len() <= 3,
            1 <= xs@.len() <= 3,
            xs@[0] == 0i8,
            ys@[0] == 0i8,
            offsets@ == shift_pairs(xs@, ys@, i as int),
            offsets@.len() == i * ys@.len(),
            i > 0 ==> offsets@[0] == (0i8, 0i8),
        decreases xs@.len() - i,
    {
        let ghost before = offsets@;
        let mut j: usize = 0;
        while j < ys.len()
            invariant
                i < xs@.len(),
                j <= ys@.len(),
                offsets@ == before + Seq::new(j as nat, |t: int| (xs@[i as int], ys@[t])),
            decreases ys@.len() - j,
        {
            offsets.push((xs[i], ys[j]));
            assert(offsets@ =~= before + Seq::new((j + 1) as nat, |t: int| (xs@[i as int], ys@[t])));
            j = j + 1;
        }
        proof {
            assert(offsets@.len() == (i + 1) * ys@.len()) by (nonlinear_arith)
                requires
                    offsets@.len() == i * ys@.len() + ys@.len(),
            ;
        }
        i = i + 1;
    }
    proof {
        assert(1 <= xs@.len() * ys@.len() <= 9) by (nonlinear_arith)
            requires
                1 <= xs@.len() <= 3,
                1 <= ys@.len() <= 3,
        ;
    }
    offsets
}

/// The selection is strictly increasing, names only active agents, and
/// misses none.
pub proof fn lemma_active_before_exact<A>(agents: Seq<Agent<A>>, live_flags: Seq<bool>, upto: int)
    requires
        0 <= upto <= agents.len(),
        agents.len() <= usize::MAX,
    ensures
        forall|k: int|
            0 <= k < active_before(agents, live_flags, upto).len() ==> {
                &&& (#[trigger] active_before(agents, live_flags, upto)[k]) < upto
                &&& is_active(
                    agents[active_before(agents, live_flags, upto)[k] as int],
                    live_flags,
                )
            },
        forall|j: int, k: int|
            0 <= j < k < active_before(agents, live_flags, upto).len() ==> active_before(
                agents,
                live_flags,
                upto,
            )[j] < active_before(agents, live_flags, upto)[k],
        forall|i: int|
            0 <= i < upto && is_active(#[trigger] agents[i], live_flags) ==> active_before(
                agents,
                live_flags,
                upto,
            ).contains(i as usize),
    decreases upto,
{
    if upto > 0 {
        lemma_active_before_exact(agents, live_flags, upto - 1);
        let rest = active_before(agents, live_flags, upto - 1);
        let now = active_before(agents, live_flags, upto);
        assert forall|i: int|
            0 <= i < upto && is_active(#[trigger] agents[i], live_flags) implies now.contains(
            i as usize,
        ) by {
            if i < upto - 1 {
                let k = choose|k: int| 0 <= k < rest.len() && rest[k] == i as usize;
                assert(now[k] == i as usize);
            } else {
                assert(now[rest.len() as int] == i as usize);
            }
        }
    }
}

} // verus!
