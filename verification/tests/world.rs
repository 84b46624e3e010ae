use digital_life_core::agent::Agent;
use digital_life_core::config::CountError;
use digital_life_core::config::MetabolismMode;
use digital_life_core::config::SimConfig;
use digital_life_core::config::SimConfigError;
use digital_life_core::config::MAX_TOTAL_AGENTS;
use digital_life_core::genome::Genome;
use digital_life_core::nn::NeuralNet;
use digital_life_core::organism::Founder;
use digital_life_core::world::environment::RateSource;
use digital_life_core::world::lifecycle::Admission;
use digital_life_core::world::metrics::LineageEvent;
use digital_life_core::world::World;
use digital_life_core::world::WorldInitError;

type TestWorld = World<f32, [f64; 2], f32>;

fn config(num_organisms: usize, agents_per_organism: usize) -> SimConfig {
    SimConfig {
        num_organisms,
        agents_per_organism,
        seed: 7,
        growth_maturation_steps: 1,
        reproduction_child_min_agents: 1,
        max_organism_age_steps: 100,
        compaction_interval_steps: 64,
        environment_shift_step: 0,
        environment_cycle_period: 0,
        metabolism_mode: MetabolismMode::Toy,
        enable_response: true,
        enable_homeostasis: true,
        enable_boundary_maintenance: true,
        enable_metabolism: true,
        enable_growth: true,
        enable_reproduction: true,
        enable_evolution: true,
        enable_sham_process: false,
    }
}

fn founder_agents(num_organisms: usize, agents_per_organism: usize) -> Vec<Agent<[f64; 2]>> {
    let mut agents = Vec::new();
    for org in 0..num_organisms {
        for i in 0..agents_per_organism {
            let id = (org * agents_per_organism + i) as u32;
            agents.push(Agent::new(id, org as u16, [id as f64, 0.5]));
        }
    }
    agents
}

fn founders(n: usize) -> Vec<Founder<f32, f32>> {
    (0..n)
        .map(|k| Founder {
            nn: NeuralNet::from_weights(&vec![k as f32; 212]),
            body: 1.0 + k as f32,
        })
        .collect()
}

fn world(num_organisms: usize, agents_per_organism: usize) -> TestWorld {
    match World::try_new(
        founder_agents(num_organisms, agents_per_organism),
        founders(num_organisms),
        0.0,
        config(num_organisms, agents_per_organism),
    ) {
        Ok(w) => w,
        Err(e) => panic!("{}", e.message()),
    }
}

fn init_error(
    agents: Vec<Agent<[f64; 2]>>,
    organisms: usize,
    cfg: SimConfig,
) -> WorldInitError {
    match TestWorld::try_new(agents, founders(organisms), 0.0, cfg) {
        Ok(_) => panic!("the world was accepted"),
        Err(e) => e,
    }
}

#[test]
fn new_world_has_founders_in_order() {
    let w = world(3, 2);
    assert_eq!(w.organism_count(), 3);
    assert_eq!(w.agents().len(), 6);
    assert_eq!(w.next_agent_id(), 6);
    assert_eq!(w.next_organism_stable_id(), 3);
    assert_eq!(w.step_index(), 0);
    assert_eq!(w.total_births(), 0);
    assert_eq!(w.total_deaths(), 0);
    assert!(w.lifespans().is_empty());
    assert!(w.lineage_events().is_empty());
    for (k, org) in w.organisms().iter().enumerate() {
        assert_eq!(org.id as usize, k);
        assert_eq!(org.stable_id, k as u64);
        assert_eq!(org.generation, 0);
        assert_eq!(org.age_steps, 0);
        assert!(org.alive);
        assert_eq!(org.parent_stable_id, None);
        assert_eq!(org.agent_ids, vec![2 * k as u32, 2 * k as u32 + 1]);
        assert_eq!(org.body, 1.0 + k as f32);
        assert_eq!(org.genome.len(), 256);
        assert!(org.genome.nn_weights().iter().all(|&v| v == k as f32));
        assert!(org.genome.data()[212..].iter().all(|&v| v == 0.0));
        assert_eq!(org.genome.data(), org.ancestor_genome.data());
        assert_eq!(org.nn.to_weight_vec(), vec![k as f32; 212]);
    }
    assert_eq!(w.live_flags(), vec![true, true, true]);
    assert_eq!(w.alive_count(), 3);
}

#[test]
fn next_agent_id_follows_the_largest_founder_id() {
    let agents = vec![
        Agent::new(40, 0, [0.0, 0.0]),
        Agent::new(7, 0, [0.0, 0.0]),
    ];
    let w = TestWorld::try_new(agents, founders(1), 0.0, config(1, 2));
    assert_eq!(w.ok().map(|w| w.next_agent_id()), Some(41));
    let agents = vec![Agent::new(u32::MAX, 0, [0.0, 0.0])];
    let w = TestWorld::try_new(agents, founders(1), 0.0, config(1, 1));
    assert_eq!(w.ok().map(|w| w.next_agent_id()), Some(u32::MAX));
    let w = TestWorld::try_new(Vec::new(), founders(1), 0.0, config(1, 0));
    assert_eq!(w.ok().map(|w| w.next_agent_id()), Some(1));
}

#[test]
fn try_new_reports_organism_count_mismatch() {
    let e = init_error(founder_agents(2, 2), 3, config(2, 2));
    assert_eq!(e, WorldInitError::NumOrganismsMismatch { expected: 2, actual: 3 });
    assert_eq!(e.message(), "num_organisms (2) must match nns.len() (3)");
}

#[test]
fn try_new_reports_agent_count_overflow() {
    let e = init_error(Vec::new(), 2, config(2, usize::MAX));
    assert_eq!(e, WorldInitError::AgentCountOverflow);
    assert_eq!(e.message(), "num_organisms * agents_per_organism overflows usize");
}

#[test]
fn try_new_reports_too_many_agents() {
    let e = init_error(Vec::new(), 1, config(1, MAX_TOTAL_AGENTS + 1));
    assert_eq!(
        e,
        WorldInitError::TooManyAgents { max: MAX_TOTAL_AGENTS, actual: MAX_TOTAL_AGENTS + 1 }
    );
    assert_eq!(
        e.message(),
        format!(
            "total agents ({}) exceeds supported maximum ({})",
            MAX_TOTAL_AGENTS + 1,
            MAX_TOTAL_AGENTS
        )
    );
}

#[test]
fn try_new_reports_agent_count_mismatch() {
    let e = init_error(founder_agents(2, 2), 2, config(2, 3));
    assert_eq!(e, WorldInitError::AgentCountMismatch { expected: 6, actual: 4 });
    assert_eq!(
        e.message(),
        "agents.len() (4) must match num_organisms * agents_per_organism (6)"
    );
}

#[test]
fn try_new_reports_invalid_organism_id() {
    let mut agents = founder_agents(2, 2);
    agents[3].organism_id = 2;
    let e = init_error(agents, 2, config(2, 2));
    assert_eq!(e, WorldInitError::InvalidOrganismId);
    assert_eq!(e.message(), "all agent organism_ids must be valid indices into nns");
}

#[test]
fn try_new_checks_in_a_fixed_order() {
    let mut agents = founder_agents(1, 1);
    agents[0].organism_id = 9;
    let e = init_error(agents, 3, config(2, 5));
    assert_eq!(e, WorldInitError::NumOrganismsMismatch { expected: 2, actual: 3 });
}

#[test]
fn config_error_carries_its_reason() {
    let e = WorldInitError::from(SimConfigError { reason: String::from("dt must be positive") });
    assert_eq!(e.message(), "dt must be positive");
    assert_eq!(
        e.source(),
        Some(&SimConfigError { reason: String::from("dt must be positive") })
    );
    assert_eq!(WorldInitError::InvalidOrganismId.source(), None);
}

#[test]
fn mark_dead_records_the_death_once() {
    let mut w = world(3, 2);
    w.age_organism(1);
    w.age_organism(1);
    assert!(w.mark_dead(1));
    assert_eq!(w.live_flags(), vec![true, false, true]);
    assert_eq!(w.lifespans(), &vec![2usize]);
    assert_eq!(w.deaths_last_step(), 1);
    assert_eq!(w.total_deaths(), 1);
    assert!(!w.mark_dead(1));
    assert_eq!(w.lifespans(), &vec![2usize]);
    assert_eq!(w.deaths_last_step(), 1);
    assert_eq!(w.total_deaths(), 1);
    assert!(!w.mark_dead(3));
    assert_eq!(w.total_deaths(), 1);
    assert_eq!(w.alive_count(), 2);
}

#[test]
fn begin_step_advances_and_clears_step_counters() {
    let mut w = world(2, 1);
    w.begin_step();
    w.mark_dead(0);
    assert_eq!(w.step_index(), 1);
    assert_eq!(w.deaths_last_step(), 1);
    w.begin_step();
    assert_eq!(w.step_index(), 2);
    assert_eq!(w.deaths_last_step(), 0);
    assert_eq!(w.births_last_step(), 0);
    assert_eq!(w.agent_id_exhaustions_last_step(), 0);
    assert_eq!(w.total_deaths(), 1);
}

#[test]
fn age_organism_reports_expiry_past_the_maximum() {
    let mut cfg = config(2, 1);
    cfg.max_organism_age_steps = 2;
    let mut w = match TestWorld::try_new(founder_agents(2, 1), founders(2), 0.0, cfg) {
        Ok(w) => w,
        Err(e) => panic!("{}", e.message()),
    };
    assert!(!w.age_organism(0));
    assert!(!w.age_organism(0));
    assert!(w.age_organism(0));
    assert_eq!(w.organisms()[0].age_steps, 3);
    assert_eq!(w.organisms()[1].age_steps, 0);
    w.mark_dead(1);
    assert!(!w.age_organism(1));
    assert_eq!(w.organisms()[1].age_steps, 0);
    assert!(!w.age_organism(5));
}

#[test]
fn compaction_preserves_survivors() {
    let mut w = world(3, 2);
    w.mark_dead(0);
    let before: Vec<(u32, u16, [f64; 2])> =
        w.agents().iter().map(|a| (a.id, a.organism_id, a.body)).collect();
    w.prune_dead_entities();
    assert_eq!(w.organism_count(), 2);
    assert_eq!(w.organisms()[0].id, 0);
    assert_eq!(w.organisms()[0].stable_id, 1);
    assert_eq!(w.organisms()[1].id, 1);
    assert_eq!(w.organisms()[1].stable_id, 2);
    assert_eq!(w.organisms()[0].body, 2.0);
    assert_eq!(w.organisms()[0].agent_ids, vec![2, 3]);
    assert_eq!(w.organisms()[1].agent_ids, vec![4, 5]);
    assert!(w.organisms()[0].genome.nn_weights().iter().all(|&v| v == 1.0));
    let survivors: Vec<(u32, u16, [f64; 2])> =
        before.into_iter().filter(|&(_, org, _)| org != 0).collect();
    assert_eq!(w.agents().len(), survivors.len());
    for (agent, (id, old_org, body)) in w.agents().iter().zip(survivors) {
        assert_eq!(agent.id, id);
        assert_eq!(agent.organism_id, old_org - 1);
        assert_eq!(agent.body, body);
    }
    assert_eq!(w.total_deaths(), 1);
    assert_eq!(w.lifespans(), &vec![0usize]);
    assert_eq!(w.next_agent_id(), 6);
    assert_eq!(w.next_organism_stable_id(), 3);
}

#[test]
fn compaction_of_a_living_world_changes_nothing() {
    let mut w = world(2, 2);
    w.prune_dead_entities();
    assert_eq!(w.organism_count(), 2);
    assert_eq!(w.agents().len(), 4);
    assert_eq!(w.organisms()[1].agent_ids, vec![2, 3]);
}

#[test]
fn compaction_keeps_order_of_interleaved_agents() {
    let agents = vec![
        Agent::new(10, 2, [0.0, 0.0]),
        Agent::new(11, 0, [1.0, 0.0]),
        Agent::new(12, 1, [2.0, 0.0]),
        Agent::new(13, 2, [3.0, 0.0]),
        Agent::new(14, 1, [4.0, 0.0]),
        Agent::new(15, 0, [5.0, 0.0]),
    ];
    let mut w = match TestWorld::try_new(agents, founders(3), 0.0, config(3, 2)) {
        Ok(w) => w,
        Err(e) => panic!("{}", e.message()),
    };
    assert_eq!(w.organisms()[2].agent_ids, vec![10, 13]);
    w.mark_dead(1);
    w.prune_dead_entities();
    let links: Vec<(u32, u16)> = w.agents().iter().map(|a| (a.id, a.organism_id)).collect();
    assert_eq!(links, vec![(10, 1), (11, 0), (13, 1), (15, 0)]);
    assert_eq!(w.organisms()[0].agent_ids, vec![11, 15]);
    assert_eq!(w.organisms()[1].agent_ids, vec![10, 13]);
    assert_eq!(w.organisms()[1].stable_id, 2);
}

#[test]
fn compaction_is_due_when_a_quarter_is_dead() {
    let mut w = world(8, 1);
    w.begin_step();
    assert!(!w.compaction_due());
    w.mark_dead(3);
    assert!(!w.compaction_due());
    w.mark_dead(5);
    assert!(w.compaction_due());
    assert!(w.compact_if_due());
    assert_eq!(w.organism_count(), 6);
    assert!(!w.compact_if_due());
}

#[test]
fn compaction_is_due_on_the_interval_with_one_dead() {
    let mut cfg = config(8, 1);
    cfg.compaction_interval_steps = 2;
    let mut w = match TestWorld::try_new(founder_agents(8, 1), founders(8), 0.0, cfg) {
        Ok(w) => w,
        Err(e) => panic!("{}", e.message()),
    };
    w.begin_step();
    w.mark_dead(0);
    assert!(!w.compaction_due());
    w.begin_step();
    assert!(w.compaction_due());
}

#[test]
fn admission_stops_at_the_agent_cap() {
    let mut w = world(2, 2);
    assert_eq!(w.admit_birth(1), Admission::Admit);
    assert_eq!(w.admit_birth(MAX_TOTAL_AGENTS - 4), Admission::Admit);
    assert_eq!(w.admit_birth(MAX_TOTAL_AGENTS - 3), Admission::Full);
    assert_eq!(w.admit_birth(usize::MAX), Admission::Full);
    assert_eq!(w.total_agent_id_exhaustions(), 0);
}

#[test]
fn admission_counts_exhausted_identities() {
    let agents = vec![Agent::new(u32::MAX - 2, 0, [0.0, 0.0])];
    let mut w = match TestWorld::try_new(agents, founders(1), 0.0, config(1, 1)) {
        Ok(w) => w,
        Err(e) => panic!("{}", e.message()),
    };
    assert_eq!(w.next_agent_id(), u32::MAX - 1);
    assert_eq!(w.ids_left(), 1);
    assert_eq!(w.admission(1), Admission::Admit);
    assert_eq!(w.admission(2), Admission::Exhausted);
    assert_eq!(w.total_agent_id_exhaustions(), 0);
    assert_eq!(w.admit_birth(1), Admission::Admit);
    assert_eq!(w.admit_birth(0), Admission::Admit);
    assert_eq!(w.total_agent_id_exhaustions(), 0);
    assert_eq!(w.admit_birth(2), Admission::Exhausted);
    assert_eq!(w.agent_id_exhaustions_last_step(), 1);
    assert_eq!(w.total_agent_id_exhaustions(), 1);
    assert_eq!(w.admit_birth(3), Admission::Exhausted);
    assert_eq!(w.total_agent_id_exhaustions(), 2);
    assert_eq!(w.next_agent_id_checked(), Some(u32::MAX - 1));
    assert_eq!(w.next_agent_id_checked(), None);
    assert_eq!(w.next_agent_id(), u32::MAX);
    assert_eq!(w.ids_left(), 0);
    assert_eq!(w.admit_birth(1), Admission::Exhausted);
    assert_eq!(w.admit_birth(0), Admission::Admit);
}

#[test]
fn reproduction_happens() {
    let mut w = world(2, 4);
    w.begin_step();
    let child_agents = w.config().child_agent_count();
    assert_eq!(child_agents, 2);
    let parents = w.eligible_parents(&[true, true]);
    assert_eq!(parents, vec![0, 1]);
    let mut genome = w.organisms()[1].genome.clone();
    genome.set(0, 0.75);
    let child = w.spawn_child(1, genome, vec![[9.0, 9.0], [8.0, 8.0]], 0.5);
    assert_eq!(child, Some(2));
    assert!(w.total_births() > 0);
    assert_eq!(w.births_last_step(), 1);
    assert_eq!(
        w.lineage_events(),
        &vec![LineageEvent { step: 1, parent_stable_id: 1, child_stable_id: 2, generation: 1 }]
    );
    assert!(w.lineage_events().iter().any(|e| e.generation == 1));
    let born = &w.organisms()[2];
    assert_eq!(born.id, 2);
    assert_eq!(born.stable_id, 2);
    assert_eq!(born.generation, 1);
    assert_eq!(born.age_steps, 0);
    assert!(born.alive);
    assert_eq!(born.parent_stable_id, Some(1));
    assert_eq!(born.agent_ids, vec![8, 9]);
    assert_eq!(born.body, 0.5);
    assert_eq!(born.genome.data()[0], 0.75);
    assert_eq!(born.nn.w_ih[0][0], 0.75);
    assert_eq!(born.nn.w_ih[0][1], 1.0);
    assert_eq!(born.ancestor_genome.data(), w.organisms()[1].ancestor_genome.data());
    assert_eq!(w.agents().len(), 10);
    assert_eq!(w.agents()[8].id, 8);
    assert_eq!(w.agents()[8].organism_id, 2);
    assert_eq!(w.agents()[8].body, [9.0, 9.0]);
    assert_eq!(w.agents()[9].id, 9);
    assert_eq!(w.agents()[9].body, [8.0, 8.0]);
    assert_eq!(w.next_agent_id(), 10);
    assert_eq!(w.next_organism_stable_id(), 3);
    assert_eq!(w.organisms()[1].agent_ids, vec![4, 5, 6, 7]);
}

#[test]
fn grandchild_is_of_generation_two() {
    let mut w = world(1, 2);
    let g = w.organisms()[0].genome.clone();
    assert_eq!(w.spawn_child(0, g, vec![[0.0, 0.0]], 0.0), Some(1));
    let g = w.organisms()[1].genome.clone();
    assert_eq!(w.spawn_child(1, g, vec![[0.0, 0.0]], 0.0), Some(2));
    assert_eq!(w.organisms()[2].generation, 2);
    assert_eq!(w.organisms()[2].parent_stable_id, Some(1));
    assert_eq!(w.organisms()[2].stable_id, 2);
    assert_eq!(w.total_births(), 2);
}

#[test]
fn no_birth_without_agents() {
    let mut w = world(1, 1);
    let g = w.organisms()[0].genome.clone();
    assert_eq!(w.spawn_child(0, g, Vec::new(), 0.0), None);
    assert_eq!(w.organism_count(), 1);
    assert_eq!(w.agents().len(), 1);
    assert_eq!(w.next_agent_id(), 1);
    assert_eq!(w.total_births(), 0);
    assert!(w.lineage_events().is_empty());
}

#[test]
fn one_missing_identity_refuses_the_birth() {
    let agents = vec![
        Agent::new(0, 0, [0.0, 0.0]),
        Agent::new(4_294_967_291, 0, [0.0, 0.0]),
    ];
    let mut cfg = config(1, 2);
    cfg.reproduction_child_min_agents = 4;
    let mut w = match TestWorld::try_new(agents, founders(1), 0.0, cfg) {
        Ok(w) => w,
        Err(e) => panic!("{}", e.message()),
    };
    assert_eq!(w.next_agent_id(), u32::MAX - 3);
    assert_eq!(w.ids_left(), 3);
    let mut pass = w.begin_reproduction(&[true]);
    assert_eq!(pass.child_agents(), 4);
    assert_eq!(w.next_parent(&mut pass), None);
    assert!(pass.is_closed());
    assert_eq!(w.agent_id_exhaustions_last_step(), 1);
    assert_eq!(w.total_agent_id_exhaustions(), 1);
    assert_eq!(w.agents().len(), 2);
    assert_eq!(w.organism_count(), 1);
    assert_eq!(w.next_agent_id(), u32::MAX - 3);
    assert!(w.lineage_events().is_empty());
    assert_eq!(w.total_births(), 0);
}

#[test]
fn last_identities_give_a_complete_child() {
    let agents = vec![
        Agent::new(0, 0, [0.0, 0.0]),
        Agent::new(4_294_967_291, 0, [0.0, 0.0]),
    ];
    let mut cfg = config(1, 2);
    cfg.reproduction_child_min_agents = 3;
    let mut w = match TestWorld::try_new(agents, founders(1), 0.0, cfg) {
        Ok(w) => w,
        Err(e) => panic!("{}", e.message()),
    };
    let mut pass = w.begin_reproduction(&[true]);
    assert_eq!(pass.child_agents(), 3);
    assert_eq!(w.next_parent(&mut pass), Some(0));
    assert_eq!(w.placements(&mut pass), Some(3));
    let g = w.organisms()[0].genome.clone();
    let child = w.bear(&mut pass, 0, g, vec![[1.0, 0.0], [2.0, 0.0], [3.0, 0.0]], 0.0);
    assert_eq!(child, Some(1));
    assert_eq!(
        w.organisms()[1].agent_ids,
        vec![u32::MAX - 3, u32::MAX - 2, u32::MAX - 1]
    );
    assert_eq!(w.agents().len(), 5);
    assert_eq!(w.agents()[4].id, u32::MAX - 1);
    assert_eq!(w.agents()[4].body, [3.0, 0.0]);
    assert_eq!(w.next_agent_id(), u32::MAX);
    assert_eq!(w.total_agent_id_exhaustions(), 0);
    assert!(!pass.is_closed());
    assert!(pass.is_exhausted());
    assert_eq!(w.next_parent(&mut pass), None);
    assert_eq!(w.total_agent_id_exhaustions(), 0);
}

#[test]
fn child_with_short_neural_segment_inherits_the_controller() {
    let mut w = world(1, 1);
    let genome = Genome::with_nn_weights(vec![3.0f32; 5], 0.0);
    assert_eq!(w.spawn_child(0, genome, vec![[0.0, 0.0]], 0.0), Some(1));
    assert_eq!(w.organisms()[1].nn.to_weight_vec(), w.organisms()[0].nn.to_weight_vec());
    assert_eq!(w.organisms()[1].genome.len(), 49);
}

#[test]
fn eligible_parents_are_alive_and_fit() {
    let mut w = world(4, 1);
    w.mark_dead(2);
    assert_eq!(w.eligible_parents(&[true, false, true, true]), vec![0, 3]);
    assert_eq!(w.eligible_parents(&[false, false, false, false]), Vec::<usize>::new());
}

#[test]
fn agent_ids_stay_distinct_through_births_and_compaction() {
    let mut w = world(3, 2);
    let g = w.organisms()[0].genome.clone();
    w.spawn_child(0, g, vec![[0.0, 0.0], [0.0, 0.0]], 0.0);
    w.mark_dead(1);
    w.prune_dead_entities();
    let g = w.organisms()[2].genome.clone();
    w.spawn_child(2, g, vec![[0.0, 0.0]], 0.0);
    let mut ids: Vec<u32> = w.agents().iter().map(|a| a.id).collect();
    assert_eq!(ids, vec![0, 1, 4, 5, 6, 7, 8]);
    ids.dedup();
    assert_eq!(ids.len(), 7);
    let stable: Vec<u64> = w.organisms().iter().map(|o| o.stable_id).collect();
    assert_eq!(stable, vec![0, 2, 3, 4]);
    for a in w.agents().iter() {
        assert!(w.organisms()[a.organism_id as usize].alive);
        assert!(w.organisms()[a.organism_id as usize].agent_ids.contains(&a.id));
    }
}

#[test]
fn bodies_can_be_written_in_place() {
    let mut w = world(2, 1);
    *w.organism_body_mut(1) = 0.25;
    *w.agent_body_mut(0) = [3.0, 4.0];
    assert_eq!(*w.organism_body(1), 0.25);
    assert_eq!(w.try_organism_body(1), Some(&0.25));
    assert_eq!(w.try_organism_body(2), None);
    assert_eq!(w.agents()[0].body, [3.0, 4.0]);
    assert_eq!(w.agents()[0].id, 0);
    assert_eq!(w.organisms()[1].stable_id, 1);
}

#[test]
fn genome_segment_of_an_organism_can_be_overwritten() {
    let mut w = world(2, 1);
    let seg = [0.5f32; 16];
    w.set_genome_segment(1, 1, &seg);
    assert_eq!(w.organisms()[1].genome.segment_data(1), &seg[..]);
    assert!(w.organisms()[1].ancestor_genome.segment_data(1).iter().all(|&v| v == 0.0));
    assert!(w.organisms()[0].genome.segment_data(1).iter().all(|&v| v == 0.0));
    assert!(w.organisms()[1].genome.nn_weights().iter().all(|&v| v == 1.0));
}

#[test]
fn set_config_checks_counts() {
    let mut w = world(2, 2);
    assert_eq!(
        w.set_config(config(3, 2)),
        Err(WorldInitError::NumOrganismsMismatch { expected: 3, actual: 2 })
    );
    assert_eq!(w.set_config(config(2, usize::MAX)), Err(WorldInitError::AgentCountOverflow));
    assert_eq!(
        w.set_config(config(2, 3)),
        Err(WorldInitError::AgentCountMismatch { expected: 6, actual: 4 })
    );
    assert_eq!(w.config().max_organism_age_steps, 100);
    let mut cfg = config(2, 2);
    cfg.max_organism_age_steps = 5;
    assert_eq!(w.set_config(cfg), Ok(()));
    assert_eq!(w.config().max_organism_age_steps, 5);
}

#[test]
fn rate_follows_cycle_and_shift() {
    let mut cfg = config(1, 1);
    cfg.environment_shift_step = 2;
    let mut w = match TestWorld::try_new(founder_agents(1, 1), founders(1), 0.0, cfg) {
        Ok(w) => w,
        Err(e) => panic!("{}", e.message()),
    };
    w.begin_step();
    assert_eq!(w.rate_source(), RateSource::Unchanged);
    w.begin_step();
    assert_eq!(w.rate_source(), RateSource::Shifted);
    w.begin_step();
    assert_eq!(w.rate_source(), RateSource::Unchanged);
    let mut cfg = config(1, 1);
    cfg.environment_shift_step = 2;
    cfg.environment_cycle_period = 2;
    assert_eq!(w.set_config(cfg), Ok(()));
    assert_eq!(w.step_index(), 3);
    assert_eq!(w.rate_source(), RateSource::Low);
    w.begin_step();
    assert_eq!(w.rate_source(), RateSource::Regular);
    w.begin_step();
    assert_eq!(w.rate_source(), RateSource::Regular);
    w.begin_step();
    assert_eq!(w.rate_source(), RateSource::Low);
}

#[test]
fn child_agent_count_is_half_or_the_minimum() {
    let mut cfg = config(4, 10);
    assert_eq!(cfg.child_agent_count(), 5);
    cfg.reproduction_child_min_agents = 8;
    assert_eq!(cfg.child_agent_count(), 8);
    cfg.agents_per_organism = 1;
    cfg.reproduction_child_min_agents = 0;
    assert_eq!(cfg.child_agent_count(), 0);
    assert_eq!(cfg.founder_agent_count(), Some(4));
    assert!(MetabolismMode::Graph.per_organism());
    assert!(!MetabolismMode::Toy.per_organism());
    assert!(!MetabolismMode::Counter.per_organism());
}

#[test]
fn reproduction_pass_offers_parents_in_order_and_ends() {
    let mut w = world(3, 4);
    w.mark_dead(1);
    let mut pass = w.begin_reproduction(&[true, true, true]);
    assert!(!pass.is_empty());
    assert_eq!(pass.child_agents(), 2);
    assert_eq!(w.next_parent(&mut pass), Some(0));
    assert_eq!(w.placements(&mut pass), Some(2));
    let g = w.organisms()[0].genome.clone();
    assert_eq!(w.bear(&mut pass, 0, g, vec![[0.0, 0.0], [1.0, 1.0]], 0.5), Some(3));
    assert!(!pass.is_closed());
    assert_eq!(w.next_parent(&mut pass), Some(2));
    assert_eq!(w.next_parent(&mut pass), None);
    assert!(pass.is_closed());
    assert_eq!(w.next_parent(&mut pass), None);
    assert_eq!(w.total_births(), 1);
    assert_eq!(w.total_agent_id_exhaustions(), 0);
}

#[test]
fn reproduction_pass_without_fit_parents_is_empty() {
    let w = world(2, 2);
    let pass = w.begin_reproduction(&[false, false]);
    assert!(pass.is_empty());
}

#[test]
fn reproduction_pass_ends_when_identities_run_out() {
    let agents = vec![
        Agent::new(u32::MAX - 1, 0, [0.0, 0.0]),
        Agent::new(5, 0, [0.0, 0.0]),
        Agent::new(6, 1, [0.0, 0.0]),
        Agent::new(7, 1, [0.0, 0.0]),
    ];
    let mut cfg = config(2, 2);
    cfg.reproduction_child_min_agents = 3;
    let mut w = match TestWorld::try_new(agents, founders(2), 0.0, cfg) {
        Ok(w) => w,
        Err(e) => panic!("{}", e.message()),
    };
    let mut pass = w.begin_reproduction(&[true, true]);
    assert_eq!(pass.child_agents(), 3);
    assert_eq!(w.next_parent(&mut pass), None);
    assert!(pass.is_closed());
    assert_eq!(w.agent_id_exhaustions_last_step(), 1);
    assert_eq!(w.total_agent_id_exhaustions(), 1);
    assert_eq!(w.next_parent(&mut pass), None);
    assert_eq!(w.total_agent_id_exhaustions(), 1);
}

#[test]
fn reproduction_pass_ends_when_the_child_has_no_agent() {
    let mut cfg = config(2, 1);
    cfg.reproduction_child_min_agents = 0;
    let mut w = match TestWorld::try_new(founder_agents(2, 1), founders(2), 0.0, cfg) {
        Ok(w) => w,
        Err(e) => panic!("{}", e.message()),
    };
    let mut pass = w.begin_reproduction(&[true, true]);
    assert_eq!(pass.child_agents(), 0);
    assert_eq!(w.next_parent(&mut pass), Some(0));
    assert_eq!(w.placements(&mut pass), Some(0));
    let g = w.organisms()[0].genome.clone();
    assert_eq!(w.bear(&mut pass, 0, g, Vec::new(), 0.0), None);
    assert!(pass.is_closed());
    assert_eq!(w.next_parent(&mut pass), None);
    assert_eq!(w.organism_count(), 2);
    assert_eq!(w.total_births(), 0);
}

#[test]
fn kill_list_is_applied_in_order() {
    let mut w = world(4, 1);
    w.age_organism(3);
    let died = w.mark_all_dead(&[3, 0, 3, 9]);
    assert_eq!(died, vec![true, true, false, false]);
    assert_eq!(w.lifespans(), &vec![1usize, 0]);
    assert_eq!(w.total_deaths(), 2);
    assert_eq!(w.alive_indices(), vec![1, 2]);
}

#[test]
fn counts_of_living_agents_and_snapshot_rows_follow_the_living() {
    let mut w = world(3, 2);
    w.age_organism(2);
    let g = w.organisms()[2].genome.clone();
    assert_eq!(w.spawn_child(2, g, vec![[0.0, 0.0], [0.0, 0.0], [0.0, 0.0]], 0.0), Some(3));
    w.mark_dead(1);
    assert_eq!(w.living_agent_counts(), vec![2, 0, 2, 3]);
    let rows = w.snapshot_rows();
    let seen: Vec<(usize, u64, u32, usize, usize)> = rows
        .iter()
        .map(|r| (r.index, r.stable_id, r.generation, r.age_steps, r.n_agents))
        .collect();
    assert_eq!(seen, vec![(0, 0, 0, 0, 2), (2, 2, 0, 1, 2), (3, 3, 1, 0, 3)]);
    w.prune_dead_entities();
    assert_eq!(w.living_agent_counts(), vec![2, 2, 3]);
    assert_eq!(w.snapshot_rows()[1].index, 1);
    assert_eq!(w.snapshot_rows()[1].stable_id, 2);
}

#[test]
fn counts_of_the_configuration_are_validated() {
    assert_eq!(config(2, 2).count_error(), None);
    assert_eq!(config(0, 2).count_error(), Some(CountError::EmptyPopulation));
    assert_eq!(config(2, 0).count_error(), Some(CountError::EmptyPopulation));
    let mut cfg = config(2, 2);
    cfg.growth_maturation_steps = 0;
    assert_eq!(cfg.count_error(), Some(CountError::InvalidMaturationSteps));
    cfg.num_organisms = 0;
    assert_eq!(cfg.count_error(), Some(CountError::EmptyPopulation));
}

#[test]
fn organism_array_stops_growing_at_its_cap() {
    let founders: Vec<Founder<u8, ()>> = (0..65_535)
        .map(|_| Founder { nn: NeuralNet::from_weights(&[0u8; 212]), body: () })
        .collect();
    let mut w: World<u8, (), ()> =
        match World::try_new(Vec::new(), founders, 0, config(65_535, 0)) {
            Ok(w) => w,
            Err(e) => panic!("{}", e.message()),
        };
    assert_eq!(w.next_child_index(), Some(65_535));
    let g = w.organisms()[0].genome.clone();
    assert_eq!(w.spawn_child(0, g, vec![()], ()), Some(65_535));
    assert_eq!(w.organism_count(), 65_536);
    assert_eq!(w.organisms()[65_535].id, 65_535);
    assert_eq!(w.next_child_index(), None);
    let g = w.organisms()[0].genome.clone();
    assert_eq!(w.spawn_child(0, g, vec![()], ()), None);
    assert_eq!(w.organism_count(), 65_536);
    assert_eq!(w.total_births(), 1);
    let mut pass = w.begin_reproduction(&vec![true; 65_536]);
    assert_eq!(w.next_parent(&mut pass), Some(0));
    assert_eq!(w.placements(&mut pass), None);
    assert!(pass.is_closed());
    assert_eq!(w.next_parent(&mut pass), None);
}
