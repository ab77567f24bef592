use dinotrain::brain::Brain;
use dinotrain::entity::{Obstacle, ObstacleEntityType};
use dinotrain::neurone::{
    Neurone, NeuroneActivation, NeuroneActivationCondition, NeuroneWeb, NeuroneWebAction,
};
use dinotrain::params::GameParameters;
use dinotrain::rng::TrainRng;
use dinotrain::utils::str_to_u8_array;

#[test]
fn test_neurone_generation() {
    let params = GameParameters::new_default();
    for _ in 0..100 {
        let mut rng = TrainRng::from_seed([0; 32]);
        let neurone = Neurone::new_random(&params, &mut rng);
        assert!(neurone.x >= 0);
        assert!(neurone.x <= params.game_width - params.neurone_width);
        assert!(neurone.y >= 0);
        assert!(neurone.y <= params.game_height - params.neurone_height);
    }
}

#[test]
fn test_neurone_web_generation() {
    let params = GameParameters::new_default();
    for _ in 0..100 {
        let mut rng = TrainRng::from_seed(str_to_u8_array(params.brain_seed.as_str()));
        let neurone_web = NeuroneWeb::new_random(&params, &mut rng);
        assert!(neurone_web.neurones.len() >= params.neurone_web_creation_nb_neurones_min as usize);
        assert!(neurone_web.neurones.len() <= params.neurone_web_creation_nb_neurones_max as usize);
        for neurone in &neurone_web.neurones {
            assert!(neurone.x >= 0);
            assert!(neurone.x <= params.game_width - params.neurone_width);
            assert!(neurone.y >= 0);
            assert!(neurone.y <= params.game_height - params.neurone_height);
        }
    }
}

/// An obstacle overlapping the sensor of the one neurone below.
fn overlapping_obstacle() -> Obstacle {
    Obstacle {
        x: 90_000,
        y: 40_000,
        width: 40_000,
        height: 40_000,
        velocity: 0,
        type_: ObstacleEntityType::Cactus,
        last_time_update: 0,
    }
}

fn one_neurone_brain(
    params: &GameParameters,
    activation: NeuroneActivation,
) -> Brain {
    let neurone = Neurone::new(
        params,
        100_000,
        50_000,
        NeuroneActivationCondition::Obstacle,
        activation,
    );
    Brain {
        neurone_web: vec![NeuroneWeb { neurones: vec![neurone], action: NeuroneWebAction::Jump }],
    }
}

#[test]
fn test_colliding_assert_neurone_requests_jump() {
    let params = GameParameters::new_default();
    let brain = one_neurone_brain(&params, NeuroneActivation::Activate);
    let obstacles = vec![overlapping_obstacle()];
    let activations = brain.get_activations(&obstacles);
    assert!(activations.contains(NeuroneWebAction::Jump));
    assert!(!activations.contains(NeuroneWebAction::Bend));
    assert!(!activations.contains(NeuroneWebAction::Unbend));
}

#[test]
fn test_colliding_veto_neurone_requests_nothing() {
    let params = GameParameters::new_default();
    let brain = one_neurone_brain(&params, NeuroneActivation::PreventActivate);
    let obstacles = vec![overlapping_obstacle()];
    let activations = brain.get_activations(&obstacles);
    assert!(activations.is_empty());
}

#[test]
fn test_air_neurone_fires_only_when_clear() {
    let params = GameParameters::new_default();
    let neurone = Neurone::new(
        &params,
        100_000,
        50_000,
        NeuroneActivationCondition::Air,
        NeuroneActivation::Activate,
    );
    let clear: Vec<Obstacle> = Vec::new();
    assert_eq!(neurone.get_activation(&clear), Some(NeuroneActivation::Activate));
    let blocked = vec![overlapping_obstacle()];
    assert_eq!(neurone.get_activation(&blocked), None);
}

#[test]
fn test_veto_overrides_assert_in_web() {
    let params = GameParameters::new_default();
    let asserting = Neurone::new(
        &params,
        100_000,
        50_000,
        NeuroneActivationCondition::Obstacle,
        NeuroneActivation::Activate,
    );
    let vetoing = Neurone::new(
        &params,
        100_000,
        50_000,
        NeuroneActivationCondition::Obstacle,
        NeuroneActivation::PreventActivate,
    );
    let web = NeuroneWeb { neurones: vec![asserting, vetoing], action: NeuroneWebAction::Jump };
    let obstacles = vec![overlapping_obstacle()];
    assert!(!web.is_activated(&obstacles));
    let web_assert_only = NeuroneWeb { neurones: vec![asserting], action: NeuroneWebAction::Jump };
    assert!(web_assert_only.is_activated(&obstacles));
}

#[test]
fn test_energy_exact_value() {
    let params = GameParameters::new_default();
    // sensor centre (110_000, 60_000); dinosaur resting centre (70_000, 50_000)
    let neurone = Neurone::new(
        &params,
        100_000,
        50_000,
        NeuroneActivationCondition::Obstacle,
        NeuroneActivation::Activate,
    );
    // distance = floor(sqrt(40_000^2 + 10_000^2)) = floor(41231.056...)
    let expected_distance = 41231u64;
    let expected = expected_distance * params.neuron_cost_mult + params.neuron_cost_flat;
    assert_eq!(neurone.get_energy(&params), expected);
}
