use dinotrain::brain::Brain;
use dinotrain::error::TrainError;
use dinotrain::neurone::{
    Neurone, NeuroneActivation, NeuroneActivationCondition, NeuroneWeb, NeuroneWebAction,
};
use dinotrain::params::GameParameters;
use dinotrain::rng::TrainRng;
use dinotrain::train::{
    check_params_compatible, generate_next_generation, generate_seed, initial_population,
    select_best, train_step,
};
use dinotrain::utils::str_to_u8_array;

/// A brain with `n` webs, one neurone each, so web counts identify parents.
fn brain_with_webs(params: &GameParameters, n: usize) -> Brain {
    let mut webs = Vec::new();
    for _ in 0..n {
        let neurone = Neurone::new(
            params,
            100_000,
            50_000,
            NeuroneActivationCondition::Obstacle,
            NeuroneActivation::Activate,
        );
        webs.push(NeuroneWeb { neurones: vec![neurone], action: NeuroneWebAction::Jump });
    }
    Brain { neurone_web: webs }
}

/// A configuration whose mutations keep the web structure intact.
fn structure_preserving_params() -> GameParameters {
    let mut params = GameParameters::new_default();
    params.training_nb_brain = 5;
    params.neurone_web_add_mutation_rate = 0;
    params.neurone_web_remove_mutation_rate = 0;
    params.neurone_web_change_action_mutation_rate = 0;
    params.neurone_add_mutation_rate = 0;
    params.neurone_remove_mutation_rate = 0;
    params.neurone_change_action_mutation_rate = 0;
    params
}

#[test]
fn test_reproduction_rotates_parents_from_start_index() {
    let params = structure_preserving_params();
    let survivors = vec![
        brain_with_webs(&params, 1),
        brain_with_webs(&params, 2),
        brain_with_webs(&params, 3),
    ];
    let mut rng = TrainRng::from_seed([1; 32]);
    let offspring = Brain::mutate_all_from(&params, &survivors, 1, &mut rng);
    assert_eq!(offspring.len(), 5);
    // parents are drawn in rotation from index 1: [1, 2, 0, 1, 2]
    let expected_webs = [2usize, 3, 1, 2, 3];
    for (child, expected) in offspring.iter().zip(expected_webs.iter()) {
        assert_eq!(child.neurone_web.len(), *expected);
    }
}

#[test]
fn test_no_elites_yields_exactly_population_size() {
    let mut params = structure_preserving_params();
    params.max_nb_brain_to_save = 0;
    let survivors = vec![
        brain_with_webs(&params, 1),
        brain_with_webs(&params, 2),
        brain_with_webs(&params, 3),
    ];
    let mut rng = TrainRng::from_seed([2; 32]);
    let next = generate_next_generation(&params, &survivors, &mut rng).expect("survivors exist");
    assert_eq!(next.len(), 5);
}

#[test]
fn test_negative_elite_cap_appends_all_survivors() {
    let mut params = structure_preserving_params();
    params.max_nb_brain_to_save = -1;
    let survivors = vec![
        brain_with_webs(&params, 1),
        brain_with_webs(&params, 2),
        brain_with_webs(&params, 3),
    ];
    let mut rng = TrainRng::from_seed([2; 32]);
    let next = generate_next_generation(&params, &survivors, &mut rng).expect("survivors exist");
    // population size plus every survivor, unmutated, in order
    assert_eq!(next.len(), 8);
    assert_eq!(next[5], survivors[0]);
    assert_eq!(next[6], survivors[1]);
    assert_eq!(next[7], survivors[2]);
}

#[test]
fn test_elite_cap_draws_distinct_survivors() {
    let mut params = structure_preserving_params();
    params.max_nb_brain_to_save = 2;
    let survivors = vec![
        brain_with_webs(&params, 1),
        brain_with_webs(&params, 2),
        brain_with_webs(&params, 3),
    ];
    let mut rng = TrainRng::from_seed([3; 32]);
    let next = generate_next_generation(&params, &survivors, &mut rng).expect("survivors exist");
    assert_eq!(next.len(), 7);
    // the two elites are distinct survivors, carried over unchanged
    let e1 = next[5].neurone_web.len();
    let e2 = next[6].neurone_web.len();
    assert_ne!(e1, e2);
    assert!(e1 >= 1 && e1 <= 3);
    assert!(e2 >= 1 && e2 <= 3);
}

#[test]
fn test_selection_keeps_all_max_scorers_below_ceiling() {
    let params = GameParameters::new_default();
    let scored = vec![
        (brain_with_webs(&params, 1), 10u64),
        (brain_with_webs(&params, 2), 30u64),
        (brain_with_webs(&params, 3), 30u64),
        (brain_with_webs(&params, 1), 5u64),
    ];
    let survivors = select_best(&params, &scored).expect("population is not empty");
    assert_eq!(survivors.len(), 2);
    assert_eq!(survivors[0].1, 30);
    assert_eq!(survivors[1].1, 30);
    assert_eq!(survivors[0].0.neurone_web.len(), 2);
    assert_eq!(survivors[1].0.neurone_web.len(), 3);
}

#[test]
fn test_selection_breaks_ties_by_energy_at_ceiling() {
    let params = GameParameters::new_default();
    // webs cost energy, so more webs mean more energy
    let lean = brain_with_webs(&params, 1);
    let heavy = brain_with_webs(&params, 3);
    let lean_energy = lean.get_energie(&params);
    let heavy_energy = heavy.get_energie(&params);
    assert!(lean_energy < heavy_energy);
    let scored = vec![(heavy, 400u64), (lean, 400u64), (brain_with_webs(&params, 2), 10u64)];
    let survivors = select_best(&params, &scored).expect("population is not empty");
    // only the minimum-energy brain among the ceiling scorers survives
    assert_eq!(survivors.len(), 1);
    assert_eq!(survivors[0].0.neurone_web.len(), 1);
    assert_eq!(survivors[0].1, 400);
}

#[test]
fn test_empty_population_is_fatal() {
    let params = GameParameters::new_default();
    let scored: Vec<(Brain, u64)> = Vec::new();
    assert_eq!(select_best(&params, &scored).unwrap_err(), TrainError::EmptyPopulationOrSurvivors);
    let brains: Vec<Brain> = Vec::new();
    let mut rng = TrainRng::from_seed([0; 32]);
    assert_eq!(
        generate_next_generation(&params, &brains, &mut rng).unwrap_err(),
        TrainError::EmptyPopulationOrSurvivors
    );
}

#[test]
fn test_generate_seed_modes() {
    let mut params = GameParameters::new_default();
    let mut rng = TrainRng::from_seed([4; 32]);

    // without a reseed interval the configured land seed is used
    let fixed = generate_seed(&params, 3, "previous", &mut rng);
    assert_eq!(fixed, params.land_seed);

    // with an interval, off-cadence generations keep the previous seed
    params.terrain_seed_generation_interval = Some(5);
    let kept = generate_seed(&params, 3, "previous", &mut rng);
    assert_eq!(kept, "previous");

    // on-cadence generations draw a fresh eight-character seed
    let fresh = generate_seed(&params, 5, "previous", &mut rng);
    assert_eq!(fresh.len(), 8);
    assert!(fresh.chars().all(|c| c.is_ascii_alphanumeric()));
}

#[test]
fn test_config_compatibility_is_byte_equality() {
    let a = GameParameters::new_default();
    let b = GameParameters::new_default();
    assert!(check_params_compatible(&a, &b).is_ok());
    let mut c = GameParameters::new_default();
    c.gravity += 1;
    assert_eq!(check_params_compatible(&a, &c).unwrap_err(), TrainError::ConfigMismatch);
    let mut d = GameParameters::new_default();
    d.land_seed = "other".to_string();
    assert_eq!(check_params_compatible(&a, &d).unwrap_err(), TrainError::ConfigMismatch);
}

#[test]
fn test_identically_seeded_orchestrators_train_identically() {
    let mut params = GameParameters::new_default();
    params.training_nb_brain = 3;
    let seed = str_to_u8_array(params.brain_seed.as_str());

    let mut rng1 = TrainRng::from_seed(seed);
    let mut rng2 = TrainRng::from_seed(seed);
    let pop1 = initial_population(&params, &mut rng1);
    let pop2 = initial_population(&params, &mut rng2);
    assert_eq!(pop1.len(), 3);
    assert_eq!(pop1, pop2);

    let out1 = train_step(&params, &pop1, "gra", 1, 20_000, &mut rng1).expect("step succeeds");
    let out2 = train_step(&params, &pop2, "gra", 1, 20_000, &mut rng2).expect("step succeeds");
    assert_eq!(out1.best_score, out2.best_score);
    assert_eq!(out1.next_seed, out2.next_seed);
    assert_eq!(out1.survivors.len(), out2.survivors.len());
    for (a, b) in out1.survivors.iter().zip(out2.survivors.iter()) {
        assert_eq!(a.1, b.1);
        assert_eq!(a.0, b.0);
    }
    assert_eq!(out1.next_population.len(), out2.next_population.len());
    for (a, b) in out1.next_population.iter().zip(out2.next_population.iter()) {
        assert_eq!(a, b);
    }

    // a second generation stays in lockstep too
    let out1b = train_step(&params, &out1.next_population, out1.next_seed.as_str(), 2, 20_000, &mut rng1)
        .expect("step succeeds");
    let out2b = train_step(&params, &out2.next_population, out2.next_seed.as_str(), 2, 20_000, &mut rng2)
        .expect("step succeeds");
    assert_eq!(out1b.best_score, out2b.best_score);
    for (a, b) in out1b.next_population.iter().zip(out2b.next_population.iter()) {
        assert_eq!(a, b);
    }
}

#[test]
fn test_selection_keeps_all_minimum_energy_ties_at_ceiling() {
    let params = GameParameters::new_default();
    // two survivors of identical (minimal) structure tie on energy too
    let scored = vec![
        (brain_with_webs(&params, 1), 400u64),
        (brain_with_webs(&params, 1), 400u64),
        (brain_with_webs(&params, 3), 400u64),
    ];
    let survivors = select_best(&params, &scored).expect("population is not empty");
    assert_eq!(survivors.len(), 2);
    assert_eq!(survivors[0].0.neurone_web.len(), 1);
    assert_eq!(survivors[1].0.neurone_web.len(), 1);
}
