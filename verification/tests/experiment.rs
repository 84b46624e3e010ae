use digital_life_core::agent::Agent;
use digital_life_core::config::MetabolismMode;
use digital_life_core::config::SimConfig;
use digital_life_core::nn::NeuralNet;
use digital_life_core::organism::Founder;
use digital_life_core::spatial::active_agents;
use digital_life_core::agent::founder_links;
use digital_life_core::spatial::agent_is_active;
use digital_life_core::spatial::query_offsets;
use digital_life_core::spatial::shifts_along;
use digital_life_core::text::decimal;
use digital_life_core::world::experiment::plan_experiment;
use digital_life_core::world::experiment::sample_due;
use digital_life_core::world::experiment::snapshot_due;
use digital_life_core::world::metrics::default_schema_version;
use digital_life_core::world::metrics::diversity_pairs;
use digital_life_core::world::metrics::enumerate_pairs;
use digital_life_core::world::metrics::second_index;
use digital_life_core::world::metrics::StepCounts;
use digital_life_core::world::ExperimentError;
use digital_life_core::world::World;
use digital_life_core::world::MAX_EXPERIMENT_SAMPLES;
use digital_life_core::world::MAX_EXPERIMENT_STEPS;

fn small_world(num_organisms: usize) -> World<f32, u8, u8> {
    let config = SimConfig {
        num_organisms,
        agents_per_organism: 1,
        seed: 1,
        growth_maturation_steps: 1,
        reproduction_child_min_agents: 1,
        max_organism_age_steps: 10,
        compaction_interval_steps: 10,
        environment_shift_step: 0,
        environment_cycle_period: 0,
        metabolism_mode: MetabolismMode::Counter,
        enable_response: false,
        enable_homeostasis: false,
        enable_boundary_maintenance: false,
        enable_metabolism: false,
        enable_growth: false,
        enable_reproduction: true,
        enable_evolution: false,
        enable_sham_process: false,
    };
    let agents = (0..num_organisms).map(|k| Agent::new(k as u32, k as u16, 0u8)).collect();
    let founders = (0..num_organisms)
        .map(|_| Founder { nn: NeuralNet::from_weights(&[0.0f32; 212]), body: 0u8 })
        .collect();
    match World::try_new(agents, founders, 0.0, config) {
        Ok(w) => w,
        Err(e) => panic!("{}", e.message()),
    }
}

#[test]
fn schema_version_is_one() {
    assert_eq!(default_schema_version(), 1);
}

#[test]
fn zero_sample_interval_is_refused() {
    let e = plan_experiment(10, 0);
    assert_eq!(e, Err(ExperimentError::InvalidSampleEvery));
    assert_eq!(ExperimentError::InvalidSampleEvery.message(), "sample_every must be positive");
    assert_eq!(plan_experiment(MAX_EXPERIMENT_STEPS + 1, 0), Err(ExperimentError::InvalidSampleEvery));
}

#[test]
fn too_many_steps_are_refused() {
    let e = plan_experiment(MAX_EXPERIMENT_STEPS + 1, 1_000);
    assert_eq!(e, Err(ExperimentError::TooManySteps { max: 1_000_000, actual: 1_000_001 }));
    assert_eq!(
        ExperimentError::TooManySteps { max: 1_000_000, actual: 1_000_001 }.message(),
        "steps (1000001) exceed supported maximum (1000000)"
    );
    assert_eq!(plan_experiment(MAX_EXPERIMENT_STEPS, 20), Ok(50_000));
}

#[test]
fn too_many_samples_are_refused() {
    let e = plan_experiment(50_001, 1);
    assert_eq!(e, Err(ExperimentError::TooManySamples { max: 50_000, actual: 50_001 }));
    assert_eq!(
        ExperimentError::TooManySamples { max: 50_000, actual: 50_001 }.message(),
        "sample count (50001) exceeds supported maximum (50000)"
    );
    assert_eq!(plan_experiment(MAX_EXPERIMENT_SAMPLES, 1), Ok(50_000));
}

#[test]
fn estimated_samples_count_the_last_step() {
    assert_eq!(plan_experiment(0, 5), Ok(0));
    assert_eq!(plan_experiment(1, 5), Ok(1));
    assert_eq!(plan_experiment(100, 10), Ok(10));
    assert_eq!(plan_experiment(101, 10), Ok(11));
    assert_eq!(plan_experiment(99, 10), Ok(10));
    assert_eq!(plan_experiment(7, 100), Ok(1));
}

#[test]
fn sample_steps_match_the_estimate() {
    for &(steps, every) in [(100usize, 10usize), (101, 10), (99, 10), (7, 100), (1, 1), (0, 3), (37, 4)].iter() {
        let taken = (1..=steps).filter(|&s| sample_due(s, steps, every)).count();
        assert_eq!(Ok(taken), plan_experiment(steps, every));
    }
    assert!(sample_due(10, 100, 10));
    assert!(!sample_due(11, 100, 10));
    assert!(sample_due(7, 7, 10));
}

#[test]
fn snapshot_steps_are_looked_up() {
    assert!(snapshot_due(&[3, 9, 27], 9));
    assert!(!snapshot_due(&[3, 9, 27], 10));
    assert!(!snapshot_due(&[], 0));
}

#[test]
fn closing_a_run_hands_over_its_records() {
    let mut w = small_world(3);
    let g = w.organisms()[0].genome.clone();
    w.spawn_child(0, g, vec![0u8], 0u8);
    w.clear_records();
    let births_before = w.total_births();
    w.begin_step();
    w.age_organism(2);
    w.mark_dead(2);
    let g = w.organisms()[1].genome.clone();
    w.spawn_child(1, g, vec![0u8], 0u8);
    let records = w.close_experiment(births_before);
    assert_eq!(records.final_alive_count, 4);
    assert_eq!(records.lifespans, vec![1]);
    assert_eq!(records.total_reproduction_events, 1);
    assert_eq!(records.lineage_events.len(), 1);
    assert_eq!(records.lineage_events[0].parent_stable_id, 1);
    assert_eq!(records.lineage_events[0].child_stable_id, 4);
    assert_eq!(records.lineage_events[0].step, 1);
    assert!(w.lifespans().is_empty());
    assert!(w.lineage_events().is_empty());
    assert_eq!(w.total_births(), 2);
}

#[test]
fn step_counts_report_the_discrete_state() {
    let mut w = small_world(3);
    w.begin_step();
    let g = w.organisms()[0].genome.clone();
    w.spawn_child(0, g, vec![0u8], 0u8);
    let g = w.organisms()[3].genome.clone();
    w.spawn_child(3, g, vec![0u8], 0u8);
    w.mark_dead(4);
    w.mark_dead(1);
    assert_eq!(
        w.collect_step_counts(1),
        StepCounts {
            step: 1,
            alive_count: 3,
            birth_count: 2,
            death_count: 2,
            population_size: 5,
            max_generation: 1,
            agent_id_exhaustion_events: 0,
        }
    );
    assert_eq!(w.max_generation(), 1);
    assert_eq!(w.members_of(0), vec![0]);
    assert_eq!(w.members_of(4), vec![4]);
    assert_eq!(w.members_of(9), Vec::<usize>::new());
}

#[test]
fn pairs_are_enumerated_in_order() {
    assert_eq!(enumerate_pairs(0), vec![]);
    assert_eq!(enumerate_pairs(1), vec![]);
    assert_eq!(enumerate_pairs(2), vec![(0, 1)]);
    assert_eq!(enumerate_pairs(4), vec![(0, 1), (0, 2), (0, 3), (1, 2), (1, 3), (2, 3)]);
    assert_eq!(enumerate_pairs(10).len(), 45);
}

#[test]
fn small_populations_compare_every_pair() {
    assert_eq!(diversity_pairs(1, 5), vec![]);
    assert_eq!(diversity_pairs(3, 5), vec![(0, 1), (0, 2), (1, 2)]);
    assert_eq!(diversity_pairs(10, 5), enumerate_pairs(10));
}

#[test]
fn large_populations_sample_fifty_distinct_pairs() {
    for &n in [11usize, 12, 40, 1000].iter() {
        let pairs = diversity_pairs(n, 3);
        assert_eq!(pairs.len(), 50);
        for &(i, j) in pairs.iter() {
            assert!(i < n);
            assert!(j < n);
            assert_ne!(i, j);
        }
    }
}

#[test]
fn sampled_pairs_depend_on_the_seed_alone() {
    assert_eq!(diversity_pairs(200, 17), diversity_pairs(200, 17));
    assert_ne!(diversity_pairs(200, 17), diversity_pairs(200, 18));
    let pairs = diversity_pairs(200, 17);
    let first = pairs[0];
    assert!(pairs.iter().any(|&p| p != first));
}

#[test]
fn second_index_skips_the_first() {
    assert_eq!(second_index(3, 0), 0);
    assert_eq!(second_index(3, 2), 2);
    assert_eq!(second_index(3, 3), 4);
    assert_eq!(second_index(0, 0), 1);
    assert_eq!(second_index(5, 9), 10);
}

#[test]
fn decimal_renders_counts() {
    assert_eq!(decimal(0), "0");
    assert_eq!(decimal(7), "7");
    assert_eq!(decimal(10), "10");
    assert_eq!(decimal(12345), "12345");
    assert_eq!(decimal(1_000_000), "1000000");
    assert_eq!(decimal(usize::MAX), usize::MAX.to_string());
}

#[test]
fn active_agents_belong_to_living_organisms() {
    let agents = vec![
        Agent::new(0, 0, ()),
        Agent::new(1, 1, ()),
        Agent::new(2, 2, ()),
        Agent::new(3, 1, ()),
        Agent::new(4, 0, ()),
    ];
    assert_eq!(active_agents(&agents, &[true, false, true]), vec![0, 2, 4]);
    assert_eq!(active_agents(&agents, &[false, true]), vec![1, 3]);
    assert_eq!(active_agents(&agents, &[]), Vec::<usize>::new());
    assert!(agent_is_active(&agents[1], &[false, true]));
    assert!(!agent_is_active(&agents[2], &[false, true]));
}

#[test]
fn run_hands_out_every_step_once() {
    let mut w = small_world(1);
    let g = w.organisms()[0].genome.clone();
    w.spawn_child(0, g, vec![0u8], 0u8);
    w.mark_dead(0);
    let mut run = match w.begin_experiment(7, 3) {
        Ok(run) => run,
        Err(e) => panic!("{}", e.message()),
    };
    assert!(w.lifespans().is_empty());
    assert!(w.lineage_events().is_empty());
    assert_eq!(run.births_before(), 1);
    assert_eq!(run.estimated_samples(), 3);
    let mut plans = Vec::new();
    while let Some(plan) = run.next_step() {
        plans.push((plan.step, plan.sample));
    }
    assert_eq!(
        plans,
        vec![(1, false), (2, false), (3, true), (4, false), (5, false), (6, true), (7, true)]
    );
    assert_eq!(run.next_step(), None);
}

#[test]
fn refused_run_leaves_the_records() {
    let mut w = small_world(2);
    w.mark_dead(1);
    assert_eq!(w.begin_experiment(5, 0).err(), Some(ExperimentError::InvalidSampleEvery));
    assert_eq!(w.lifespans(), &vec![0usize]);
    assert_eq!(
        w.begin_experiment(2_000_000, 1).err(),
        Some(ExperimentError::TooManySteps { max: 1_000_000, actual: 2_000_000 })
    );
    assert_eq!(
        w.begin_experiment(100_000, 1).err(),
        Some(ExperimentError::TooManySamples { max: 50_000, actual: 100_000 })
    );
    assert_eq!(w.lifespans(), &vec![0usize]);
    let mut run = match w.begin_experiment(0, 4) {
        Ok(run) => run,
        Err(e) => panic!("{}", e.message()),
    };
    assert_eq!(run.estimated_samples(), 0);
    assert_eq!(run.next_step(), None);
}

#[test]
fn query_copies_cover_the_wrapped_sides() {
    assert_eq!(query_offsets(false, false, false, false), vec![(0, 0)]);
    assert_eq!(query_offsets(true, false, false, false), vec![(0, 0), (1, 0)]);
    assert_eq!(query_offsets(false, false, false, true), vec![(0, 0), (0, -1)]);
    assert_eq!(
        query_offsets(true, false, false, true),
        vec![(0, 0), (0, -1), (1, 0), (1, -1)]
    );
    let all = query_offsets(true, true, true, true);
    assert_eq!(
        all,
        vec![(0, 0), (0, 1), (0, -1), (1, 0), (1, 1), (1, -1), (-1, 0), (-1, 1), (-1, -1)]
    );
    assert_eq!(shifts_along(true, true), vec![0, 1, -1]);
    assert_eq!(shifts_along(false, false), vec![0]);
}

#[test]
fn founder_links_number_the_agents_by_organism() {
    assert_eq!(founder_links(2, 3), vec![(0, 0), (1, 0), (2, 0), (3, 1), (4, 1), (5, 1)]);
    assert_eq!(founder_links(3, 0), vec![]);
    assert_eq!(founder_links(0, 5), vec![]);
    let links = founder_links(500, 100);
    assert_eq!(links.len(), 50_000);
    assert_eq!(links[49_999], (49_999, 499));
    assert_eq!(links[12_345], (12_345, 123));
}
