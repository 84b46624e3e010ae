//! Records that a run produces and the discrete parts of its metrics.

use crate::agent::owned_ids;
use crate::world::World;
use crate::world::WorldView;
use rand::Rng;
use rand::SeedableRng;
use rand_chacha::ChaCha12Rng;
use vstd::prelude::*;

verus! {

/// Wall-clock cost of one step, in microseconds.
#[derive(Clone, Debug)]
pub struct StepTimings {
    /// Building the spatial index.
    pub spatial_build_us: u64,
    /// Querying neighbours and running the controllers.
    pub nn_query_us: u64,
    /// Everything after the controllers.
    pub state_update_us: u64,
    /// The whole step.
    pub total_us: u64,
}

/// A birth: who begot whom, and when.
#[derive(Clone, Copy, Debug, PartialEq, Eq, Structural)]
pub struct LineageEvent {
    /// Step during which the child was born.
    pub step: usize,
    /// Stable identity of the parent.
    pub parent_stable_id: u64,
    /// Stable identity of the child.
    pub child_stable_id: u64,
    /// Generation of the child.
    pub generation: u32,
}

/// Version of the run summary's schema.
pub fn default_schema_version() -> (v: u32)
    ensures
        v == 1,
{
    1
}

/// Most pairs of genomes that one diversity measurement compares.
pub const MAX_DIVERSITY_PAIRS: usize = 50;

/// The generator of `rand_chacha`, carried through as an opaque value.
#[verifier::external_type_specification]
#[verifier::external_body]
pub struct ExChaCha12Rng(ChaCha12Rng);

/// What a generator holds: the words of its state, on which alone its
/// further output depends.
pub uninterp spec fn generator_state(rng: ChaCha12Rng) -> Seq<u32>;

/// The state of a generator that `SeedableRng::seed_from_u64` has just made
/// from `seed`.
pub uninterp spec fn seeded_state(seed: u64) -> Seq<u32>;

/// What `Rng::random_range` over `0..bound` makes of a generator in
/// `state`: the index that it draws, and the state that it leaves.
pub uninterp spec fn drawn_below(state: Seq<u32>, bound: usize) -> (usize, Seq<u32>);

/// `SeedableRng::seed_from_u64` for `ChaCha12Rng`: a generator seeded with
/// `seed`. Its state is claimed to depend on the seed alone, and nothing
/// more is said of it.
#[verifier::external_body]
fn seeded_rng(seed: u64) -> (rng: ChaCha12Rng)
    ensures
        generator_state(rng) == seeded_state(seed),
{
    ChaCha12Rng::seed_from_u64(seed)
}

/// `Rng::random_range` over `0..bound`: an index below `bound`. The index
/// and the state that the draw leaves are claimed to depend on the state
/// before and on the bound alone. The outside function panics on an empty
/// range, which `requires` leaves out.
#[verifier::external_body]
fn draw_below(rng: &mut ChaCha12Rng, bound: usize) -> (r: usize)
    requires
        bound > 0,
    ensures
        r < bound,
        r == drawn_below(generator_state(*old(rng)), bound).0,
        generator_state(*final(rng)) == drawn_below(generator_state(*old(rng)), bound).1,
{
    rng.random_range(0..bound)
}

/// Number of unordered pairs among `n` items.
pub open spec fn pair_count(n: nat) -> nat {
    (n * (n - 1) / 2) as nat
}

/// The pairs `(i, j)` with `i < j < n`, where `i` is fixed.
pub open spec fn pairs_with_first(n: nat, i: nat) -> Seq<(usize, usize)> {
    Seq::new((n - i - 1) as nat, |t: int| (i as usize, (i + 1 + t) as usize))
}

/// The pairs `(i, j)` with `i < j < n` and `i < upto`, ordered by `i`, then
/// by `j`.
pub open spec fn pairs_before(n: nat, upto: nat) -> Seq<(usize, usize)>
    decreases upto,
{
    if upto == 0 {
        Seq::empty()
    } else {
        pairs_before(n, (upto - 1) as nat) + pairs_with_first(n, (upto - 1) as nat)
    }
}

/// Every pair `(i, j)` with `i < j < n`, ordered by `i`, then by `j`.
pub open spec fn all_pairs(n: nat) -> Seq<(usize, usize)> {
    pairs_before(n, n)
}

/// The second index of a sampled pair: `raw`, drawn below `n - 1`, moved
/// past `first` so that the two indices differ.
pub open spec fn spec_second_index(first: nat, raw: nat) -> nat {
    if raw >= first {
        raw + 1
    } else {
        raw
    }
}

/// The pairs that `rounds` rounds of sampling among `n` items draw from a
/// generator in `state`. Each round draws a first index below `n` and a raw
/// second one below `n - 1`, which is moved past the first.
pub open spec fn sampled_pairs(state: Seq<u32>, n: usize, rounds: nat) -> Seq<(usize, usize)>
    decreases rounds,
{
    if rounds == 0 {
        Seq::empty()
    } else {
        let first = drawn_below(state, n);
        let second = drawn_below(first.1, (n - 1) as usize);
        seq![(first.0, spec_second_index(first.0 as nat, second.0 as nat) as usize)]
            + sampled_pairs(second.1, n, (rounds - 1) as nat)
    }
}

/// Every pair of `pairs` names two different items below `n`.
pub open spec fn distinct_pairs_below(pairs: Seq<(usize, usize)>, n: nat) -> bool {
    forall|k: int|
        0 <= k < pairs.len() ==> (#[trigger] pairs[k]).0 < n && pairs[k].1 < n && pairs[k].0
            != pairs[k].1
}

/// The number of pairs with a first index below `upto`.
pub proof fn lemma_pairs_before_len(n: nat, upto: nat)
    requires
        upto <= n,
    ensures
        2 * pairs_before(n, upto).len() == (upto as int) * (2 * (n as int) - (upto as int) - 1),
    decreases upto,
{
    let u = upto as int;
    let m = n as int;
    if upto > 0 {
        lemma_pairs_before_len(n, (upto - 1) as nat);
        assert((u - 1) * (2 * m - (u - 1) - 1) + 2 * (m - (u - 1) - 1) == u * (2 * m - u - 1))
            by (nonlinear_arith);
    } else {
        assert(u * (2 * m - u - 1) == 0) by (nonlinear_arith)
            requires
                u == 0,
        ;
    }
}

/// There are `n * (n - 1) / 2` pairs among `n` items.
pub proof fn lemma_all_pairs_len(n: nat)
    ensures
        all_pairs(n).len() == pair_count(n),
{
    lemma_pairs_before_len(n, n);
}

/// Every enumerated pair is ordered and names items below `n`.
pub proof fn lemma_pairs_before_ordered(n: nat, upto: nat, k: int)
    requires
        upto <= n,
        n <= usize::MAX,
        0 <= k < pairs_before(n, upto).len(),
    ensures
        pairs_before(n, upto)[k].0 < pairs_before(n, upto)[k].1 < n,
        pairs_before(n, upto)[k].0 < upto,
    decreases upto,
{
    if upto > 0 {
        let head = pairs_before(n, (upto - 1) as nat);
        if k < head.len() {
            lemma_pairs_before_ordered(n, (upto - 1) as nat, k);
        } else {
        }
    }
}

/// The second index of a sampled pair.
pub fn second_index(first: usize, raw: usize) -> (second: usize)
    requires
        raw < usize::MAX,
    ensures
        second == spec_second_index(first as nat, raw as nat),
        second != first,
{
    if raw >= first {
        raw + 1
    } else {
        raw
    }
}

/// Every pair among `n` items, ordered by the first index, then by the
/// second.
pub fn enumerate_pairs(n: usize) -> (pairs: Vec<(usize, usize)>)
    ensures
        pairs@ == all_pairs(n as nat),
{
    let mut pairs: Vec<(usize, usize)> = Vec::new();
    let mut i: usize = 0;
    while i < n
        invariant
            i <= n,
            pairs@ == pairs_before(n as nat, i as nat),
        decreases n - i,
    {
        let ghost before = pairs@;
        let mut j: usize = i + 1;
        while j < n
            invariant
                i < n,
                i + 1 <= j <= n,
                pairs@ == before + pairs_with_first(n as nat, i as nat).take(j - i - 1),
            decreases n - j,
        {
            pairs.push((i, j));
            j = j + 1;
        }
        i = i + 1;
    }
    pairs
}

/// The pairs of living organisms whose genomes a diversity measurement
/// compares, among `n` of them. Fewer than two give no pair. Up to
/// `MAX_DIVERSITY_PAIRS` pairs are all enumerated. Beyond that exactly
/// `MAX_DIVERSITY_PAIRS` pairs are drawn from a generator seeded with `seed`,
/// so that the same `n` and `seed` give the same pairs; each names two
/// different organisms.
pub fn diversity_pairs(n: usize, seed: u64) -> (pairs: Vec<(usize, usize)>)
    ensures
        pair_count(n as nat) <= MAX_DIVERSITY_PAIRS ==> pairs@ == all_pairs(n as nat),
        pair_count(n as nat) > MAX_DIVERSITY_PAIRS ==> pairs@ == sampled_pairs(
            seeded_state(seed),
            n,
            MAX_DIVERSITY_PAIRS as nat,
        ),
        pair_count(n as nat) > MAX_DIVERSITY_PAIRS ==> pairs@.len() == MAX_DIVERSITY_PAIRS,
        pair_count(n as nat) <= MAX_DIVERSITY_PAIRS ==> pairs@.len() == pair_count(n as nat),
        distinct_pairs_below(pairs@, n as nat),
{
    if n <= 10 {
        proof {
            let m = n as int;
            assert(0 <= m * (m - 1) <= 90) by (nonlinear_arith)
                requires
                    0 <= m <= 10,
            ;
        }
        let pairs = enumerate_pairs(n);
        proof {
            lemma_all_pairs_len(n as nat);
            assert forall|k: int| 0 <= k < pairs@.len() implies (#[trigger] pairs@[k]).0 < n
                && pairs@[k].1 < n && pairs@[k].0 != pairs@[k].1 by {
                lemma_pairs_before_ordered(n as nat, n as nat, k);
            }
        }
        return pairs;
    }
    proof {
        let m = n as int;
        assert(m * (m - 1) >= 110) by (nonlinear_arith)
            requires
                m >= 11,
        ;
    }
    let mut rng = seeded_rng(seed);
    let mut pairs: Vec<(usize, usize)> = Vec::with_capacity(MAX_DIVERSITY_PAIRS);
    let mut k: usize = 0;
    while k < MAX_DIVERSITY_PAIRS
        invariant
            k <= MAX_DIVERSITY_PAIRS,
            n > 10,
            pairs@.len() == k,
            distinct_pairs_below(pairs@, n as nat),
            pairs@ + sampled_pairs(generator_state(rng), n, (MAX_DIVERSITY_PAIRS - k) as nat)
                == sampled_pairs(seeded_state(seed), n, MAX_DIVERSITY_PAIRS as nat),
        decreases MAX_DIVERSITY_PAIRS - k,
    {
        let ghost before = pairs@;
        let ghost state = generator_state(rng);
        let i: usize = draw_below(&mut rng, n);
        let raw: usize = draw_below(&mut rng, n - 1);
        let j: usize = second_index(i, raw);
        pairs.push((i, j));
        proof {
            let rest = sampled_pairs(
                generator_state(rng),
                n,
                (MAX_DIVERSITY_PAIRS - k - 1) as nat,
            );
            assert(sampled_pairs(state, n, (MAX_DIVERSITY_PAIRS - k) as nat) == seq![(i, j)]
                + rest);
            assert(pairs@ + rest =~= before + (seq![(i, j)] + rest));
        }
        k = k + 1;
    }
    assert(pairs@ + Seq::<(usize, usize)>::empty() =~= pairs@);
    pairs
}

/// The discrete part of one sample of a run.
#[derive(Clone, Copy, Debug, PartialEq, Eq, Structural)]
pub struct StepCounts {
    /// Step after which the sample was taken.
    pub step: usize,
    /// Organisms alive.
    pub alive_count: usize,
    /// Births during the step.
    pub birth_count: usize,
    /// Deaths during the step.
    pub death_count: usize,
    /// Organisms in the array, dead ones included.
    pub population_size: usize,
    /// Largest generation among the living, or 0 when none lives.
    pub max_generation: usize,
    /// Reproductions refused during the step for want of agent identities.
    pub agent_id_exhaustion_events: usize,
}

/// What a snapshot lists of one living organism, apart from its continuous
/// state.
#[derive(Clone, Copy, Debug, PartialEq, Eq, Structural)]
pub struct SnapshotRow {
    /// Position of the organism in the organism array.
    pub index: usize,
    /// Stable identity.
    pub stable_id: u64,
    /// Generation.
    pub generation: u32,
    /// Steps lived.
    pub age_steps: usize,
    /// Number of agents that the organism owns.
    pub n_agents: usize,
}

impl<T: Copy, A, O> WorldView<T, A, O> {
    /// Number of agents of organism `k` that count as living: those that
    /// name it where it is alive, none where it is dead.
    pub open spec fn living_agents_of(self, k: int) -> nat {
        if self.organisms[k].alive {
            owned_ids(self.agents, k).len()
        } else {
            0
        }
    }

    /// The row of the living organism at `index`.
    pub open spec fn snapshot_row(self, index: int) -> SnapshotRow {
        SnapshotRow {
            index: index as usize,
            stable_id: self.organisms[index].stable_id,
            generation: self.organisms[index].generation,
            age_steps: self.organisms[index].age_steps,
            n_agents: owned_ids(self.agents, index).len() as usize,
        }
    }

    /// The rows of the living organisms before `upto`, in index order.
    pub open spec fn snapshot_rows_before(self, upto: int) -> Seq<SnapshotRow>
        decreases upto,
    {
        if upto <= 0 {
            Seq::empty()
        } else {
            let rest = self.snapshot_rows_before(upto - 1);
            if self.organisms[upto - 1].alive {
                rest.push(self.snapshot_row(upto - 1))
            } else {
                rest
            }
        }
    }

    /// Largest generation among the living organisms before `upto`, or 0.
    pub open spec fn max_generation_before(self, upto: int) -> nat
        decreases upto,
    {
        if upto <= 0 {
            0
        } else {
            let rest = self.max_generation_before(upto - 1);
            if self.organisms[upto - 1].alive && self.organisms[upto - 1].generation > rest {
                self.organisms[upto - 1].generation as nat
            } else {
                rest
            }
        }
    }

    /// Largest generation among the living organisms, or 0.
    pub open spec fn max_generation(self) -> nat {
        self.max_generation_before(self.organisms.len() as int)
    }

    /// Positions of the agents before `upto` that name the organism index
    /// `id`, in agent order.
    pub open spec fn members_before(self, id: u16, upto: int) -> Seq<usize>
        decreases upto,
    {
        if upto <= 0 {
            Seq::empty()
        } else {
            let rest = self.members_before(id, upto - 1);
            if self.agents[upto - 1].organism_id == id {
                rest.push((upto - 1) as usize)
            } else {
                rest
            }
        }
    }
}

impl<T: Copy, A, O> WorldView<T, A, O> {
    /// An organism owns as many identities as there are agents that name
    /// it.
    pub proof fn lemma_members_are_owned(self, id: u16, upto: int)
        requires
            0 <= upto <= self.agents.len(),
        ensures
            self.members_before(id, upto).len() == owned_ids(
                self.agents.take(upto),
                id as int,
            ).len(),
        decreases upto,
    {
        if upto > 0 {
            self.lemma_members_are_owned(id, upto - 1);
            assert(self.agents.take(upto).drop_last() =~= self.agents.take(upto - 1));
        }
    }
}

impl<T: Copy, A, O> World<T, A, O> {
    /// Largest generation among the living organisms, or 0 when none lives.
    pub fn max_generation(&self) -> (max: usize)
        ensures
            max == self@.max_generation(),
    {
        let organisms = self.organisms();
        let mut max: u32 = 0;
        let mut k: usize = 0;
        while k < organisms.len()
            invariant
                k <= organisms@.len(),
                organisms@ == self@.organisms,
                max == self@.max_generation_before(k as int),
            decreases organisms@.len() - k,
        {
            if organisms[k].alive && organisms[k].generation > max {
                max = organisms[k].generation;
            }
            k = k + 1;
        }
        max as usize
    }

    /// The discrete part of the sample taken after step `step`.
    pub fn collect_step_counts(&self, step: usize) -> (counts: StepCounts)
        ensures
            counts == (StepCounts {
                step,
                alive_count: self@.alive_count() as usize,
                birth_count: self@.births_last_step,
                death_count: self@.deaths_last_step,
                population_size: self@.organisms.len() as usize,
                max_generation: self@.max_generation() as usize,
                agent_id_exhaustion_events: self@.agent_id_exhaustions_last_step,
            }),
    {
        StepCounts {
            step,
            alive_count: self.alive_count(),
            birth_count: self.births_last_step(),
            death_count: self.deaths_last_step(),
            population_size: self.organism_count(),
            max_generation: self.max_generation(),
            agent_id_exhaustion_events: self.agent_id_exhaustions_last_step(),
        }
    }

    /// For each organism, the number of its agents that count as living:
    /// the agents that name it where it is alive, none where it is dead.
    pub fn living_agent_counts(&self) -> (counts: Vec<usize>)
        requires
            self.wf(),
        ensures
            counts@.len() == self@.organisms.len(),
            forall|k: int|
                0 <= k < counts@.len() ==> #[trigger] counts@[k] == self@.living_agents_of(k),
    {
        let organisms = self.organisms();
        let mut counts: Vec<usize> = Vec::with_capacity(organisms.len());
        let mut k: usize = 0;
        while k < organisms.len()
            invariant
                k <= organisms@.len(),
                organisms@ == self@.organisms,
                self.wf(),
                counts@.len() == k,
                forall|j: int| 0 <= j < k ==> #[trigger] counts@[j] == self@.living_agents_of(j),
            decreases organisms@.len() - k,
        {
            if organisms[k].alive {
                counts.push(organisms[k].agent_ids.len());
            } else {
                counts.push(0);
            }
            k = k + 1;
        }
        counts
    }

    /// What a snapshot lists of the living organisms, in index order.
    pub fn snapshot_rows(&self) -> (rows: Vec<SnapshotRow>)
        requires
            self.wf(),
        ensures
            rows@ == self@.snapshot_rows_before(self@.organisms.len() as int),
    {
        let organisms = self.organisms();
        let mut rows: Vec<SnapshotRow> = Vec::new();
        let mut k: usize = 0;
        while k < organisms.len()
            invariant
                k <= organisms@.len(),
                organisms@ == self@.organisms,
                self.wf(),
                rows@ == self@.snapshot_rows_before(k as int),
            decreases organisms@.len() - k,
        {
            if organisms[k].alive {
                rows.push(
                    SnapshotRow {
                        index: k,
                        stable_id: organisms[k].stable_id,
                        generation: organisms[k].generation,
                        age_steps: organisms[k].age_steps,
                        n_agents: organisms[k].agent_ids.len(),
                    },
                );
            }
            k = k + 1;
        }
        rows
    }

    /// Positions of the agents that name the organism index `id`, in agent
    /// order.
    pub fn members_of(&self, id: u16) -> (members: Vec<usize>)
        ensures
            members@ == self@.members_before(id, self@.agents.len() as int),
    {
        let agents = self.agents();
        let mut members: Vec<usize> = Vec::new();
        let mut i: usize = 0;
        while i < agents.len()
            invariant
                i <= agents@.len(),
                agents@ == self@.agents,
                members@ == self@.members_before(id, i as int),
            decreases agents@.len() - i,
        {
            if agents[i].organism_id == id {
                members.push(i);
            }
            i = i + 1;
        }
        members
    }
}

} // verus!
