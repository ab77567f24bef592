//! The immutable configuration record governing a whole run.
//!
//! Units follow the crate convention: lengths in thousandths of a pixel,
//! times in microseconds, speeds in thousandths of a pixel per second, and
//! probabilities in thousandths.

use vstd::prelude::*;
use vstd::utf8::encode_utf8;
use crate::entity::ObstacleGenerateType;
use crate::entity::SPEED_LIMIT;
use crate::neurone::NeuroneWebAction;

verus! {

/// How many generations one training run performs.
pub const TRAINING_NB_GENERATION: u64 = 3_000_000;

/// The score ceiling: a simulation reaching it is force-stopped and its
/// brain treated as indefinitely capable.
pub const LIMIT_SCORE: u64 = 400;

/// A checkpoint is written every this many generations.
pub const INTERVAL_TO_SAVE_RESULT: u64 = 100;

/// Lengths configured for the playing field stay within this bound
/// (thousandths of a pixel).
pub const DIM_LIMIT: i64 = 1_000_000_000;

/// Sensors must stay this far above the top of the ground-gap hazard
/// (thousandths of a pixel).
pub const HOLE_SAFE_MARGIN: i64 = 5_000;

/// The configuration record.  Immutable after construction; every field is
/// public and plain so the whole record can be copied, compared and
/// checkpointed byte-for-byte.
#[derive(Debug)]
pub struct GameParameters {
    pub game_width: i64,
    pub game_height: i64,
    pub game_fps: u16,
    /// Seed of the terrain (obstacle sequence) generator.
    pub land_seed: String,
    pub gravity: u64,
    /// The actions neurone webs may bind to (and so which obstacle
    /// archetypes can spawn).
    pub commands: Vec<NeuroneWebAction>,
    /// The spawnable archetypes, derived from `commands`.
    pub obstacle_generate_types: Vec<ObstacleGenerateType>,
    pub dinausor_jump_velocity: i64,
    pub score_increase_speed_interval: u64,
    pub min_obstacle_generation_time: u64,
    pub max_obstacle_generation_time: u64,
    pub obstacle_generation_time_decrease_speed: u64,
    pub obstacle_speed: i64,
    pub dinausor_width: i64,
    pub dinausor_height: i64,
    pub dinausor_x: i64,
    pub cactus_width: i64,
    pub cactus_height: i64,
    pub rock_width: i64,
    pub rock_height: i64,
    pub pterodactyle_width: i64,
    pub pterodactyle_height: i64,
    pub pterodactyle_flying_height_with_rock: i64,
    pub pterodactyle_offset_with_rock: i64,
    pub pterodactyle_flying_height_without_rock: i64,
    pub hole_width: i64,
    /// Kept below the sensor zone: neurones must not detect the gap.
    pub hole_height: i64,
    /// Seed of the brain-creation and mutation generator.
    pub brain_seed: String,
    pub neurone_width: i64,
    pub neurone_height: i64,
    pub neurone_web_creation_nb_neurones_min: u16,
    pub neurone_web_creation_nb_neurones_max: u16,
    pub brain_creation_nb_neurone_web_min: u16,
    pub brain_creation_nb_neurone_web_max: u16,
    pub neurone_web_add_mutation_rate: u32,
    pub neurone_web_remove_mutation_rate: u32,
    pub neurone_web_change_action_mutation_rate: u32,
    pub neurone_add_mutation_rate: u32,
    pub neurone_remove_mutation_rate: u32,
    pub neurone_change_action_mutation_rate: u32,
    pub neurone_x_mutation_range: i64,
    pub neurone_y_mutation_range: i64,
    /// Brains per generation.
    pub training_nb_brain: u64,
    /// Survivors carried over unmutated; negative means all of them.
    pub max_nb_brain_to_save: i64,
    pub neuron_cost_mult: u64,
    pub neuron_cost_flat: u64,
    pub neuron_web_cost_mult: u64,
    pub neuron_web_cost_flat: u64,
    /// `None`: the terrain seed is fixed; `Some(k)`: redrawn every `k`
    /// generations.
    pub terrain_seed_generation_interval: Option<u64>,
}

/// The mathematical image of a configuration: plain values and sequences.
/// Seeds appear as their UTF-8 bytes, which is how they are consumed.
#[verifier::ext_equal]
pub ghost struct ParamsView {
    pub game_width: i64,
    pub game_height: i64,
    pub game_fps: u16,
    pub land_seed: Seq<u8>,
    pub gravity: u64,
    pub commands: Seq<NeuroneWebAction>,
    pub obstacle_generate_types: Seq<ObstacleGenerateType>,
    pub dinausor_jump_velocity: i64,
    pub score_increase_speed_interval: u64,
    pub min_obstacle_generation_time: u64,
    pub max_obstacle_generation_time: u64,
    pub obstacle_generation_time_decrease_speed: u64,
    pub obstacle_speed: i64,
    pub dinausor_width: i64,
    pub dinausor_height: i64,
    pub dinausor_x: i64,
    pub cactus_width: i64,
    pub cactus_height: i64,
    pub rock_width: i64,
    pub rock_height: i64,
    pub pterodactyle_width: i64,
    pub pterodactyle_height: i64,
    pub pterodactyle_flying_height_with_rock: i64,
    pub pterodactyle_offset_with_rock: i64,
    pub pterodactyle_flying_height_without_rock: i64,
    pub hole_width: i64,
    pub hole_height: i64,
    pub brain_seed: Seq<u8>,
    pub neurone_width: i64,
    pub neurone_height: i64,
    pub neurone_web_creation_nb_neurones_min: u16,
    pub neurone_web_creation_nb_neurones_max: u16,
    pub brain_creation_nb_neurone_web_min: u16,
    pub brain_creation_nb_neurone_web_max: u16,
    pub neurone_web_add_mutation_rate: u32,
    pub neurone_web_remove_mutation_rate: u32,
    pub neurone_web_change_action_mutation_rate: u32,
    pub neurone_add_mutation_rate: u32,
    pub neurone_remove_mutation_rate: u32,
    pub neurone_change_action_mutation_rate: u32,
    pub neurone_x_mutation_range: i64,
    pub neurone_y_mutation_range: i64,
    pub training_nb_brain: u64,
    pub max_nb_brain_to_save: i64,
    pub neuron_cost_mult: u64,
    pub neuron_cost_flat: u64,
    pub neuron_web_cost_mult: u64,
    pub neuron_web_cost_flat: u64,
    pub terrain_seed_generation_interval: Option<u64>,
}

impl View for GameParameters {
    type V = ParamsView;

    open spec fn view(&self) -> ParamsView {
        ParamsView {
            game_width: self.game_width,
            game_height: self.game_height,
            game_fps: self.game_fps,
            land_seed: encode_utf8(self.land_seed@),
            gravity: self.gravity,
            commands: self.commands@,
            obstacle_generate_types: self.obstacle_generate_types@,
            dinausor_jump_velocity: self.dinausor_jump_velocity,
            score_increase_speed_interval: self.score_increase_speed_interval,
            min_obstacle_generation_time: self.min_obstacle_generation_time,
            max_obstacle_generation_time: self.max_obstacle_generation_time,
            obstacle_generation_time_decrease_speed: self.obstacle_generation_time_decrease_speed,
            obstacle_speed: self.obstacle_speed,
            dinausor_width: self.dinausor_width,
            dinausor_height: self.dinausor_height,
            dinausor_x: self.dinausor_x,
            cactus_width: self.cactus_width,
            cactus_height: self.cactus_height,
            rock_width: self.rock_width,
            rock_height: self.rock_height,
            pterodactyle_width: self.pterodactyle_width,
            pterodactyle_height: self.pterodactyle_height,
            pterodactyle_flying_height_with_rock: self.pterodactyle_flying_height_with_rock,
            pterodactyle_offset_with_rock: self.pterodactyle_offset_with_rock,
            pterodactyle_flying_height_without_rock: self.pterodactyle_flying_height_without_rock,
            hole_width: self.hole_width,
            hole_height: self.hole_height,
            brain_seed: encode_utf8(self.brain_seed@),
            neurone_width: self.neurone_width,
            neurone_height: self.neurone_height,
            neurone_web_creation_nb_neurones_min: self.neurone_web_creation_nb_neurones_min,
            neurone_web_creation_nb_neurones_max: self.neurone_web_creation_nb_neurones_max,
            brain_creation_nb_neurone_web_min: self.brain_creation_nb_neurone_web_min,
            brain_creation_nb_neurone_web_max: self.brain_creation_nb_neurone_web_max,
            neurone_web_add_mutation_rate: self.neurone_web_add_mutation_rate,
            neurone_web_remove_mutation_rate: self.neurone_web_remove_mutation_rate,
            neurone_web_change_action_mutation_rate: self.neurone_web_change_action_mutation_rate,
            neurone_add_mutation_rate: self.neurone_add_mutation_rate,
            neurone_remove_mutation_rate: self.neurone_remove_mutation_rate,
            neurone_change_action_mutation_rate: self.neurone_change_action_mutation_rate,
            neurone_x_mutation_range: self.neurone_x_mutation_range,
            neurone_y_mutation_range: self.neurone_y_mutation_range,
            training_nb_brain: self.training_nb_brain,
            max_nb_brain_to_save: self.max_nb_brain_to_save,
            neuron_cost_mult: self.neuron_cost_mult,
            neuron_cost_flat: self.neuron_cost_flat,
            neuron_web_cost_mult: self.neuron_web_cost_mult,
            neuron_web_cost_flat: self.neuron_web_cost_flat,
            terrain_seed_generation_interval: self.terrain_seed_generation_interval,
        }
    }
}

/// The spawnable archetypes enabled by an action set: ground hazards need
/// `Jump`, the lone flyer needs both `Bend` and `Unbend`.
pub open spec fn spec_obstacles_generation_type(
    commands: Seq<NeuroneWebAction>,
) -> Seq<ObstacleGenerateType> {
    let jump: Seq<ObstacleGenerateType> = if commands.contains(NeuroneWebAction::Jump) {
        seq![
            ObstacleGenerateType::Cactus,
            ObstacleGenerateType::Rock,
            ObstacleGenerateType::RockAndPterodactyle,
            ObstacleGenerateType::RockAndHole,
        ]
    } else {
        Seq::empty()
    };
    let bend: Seq<ObstacleGenerateType> = if commands.contains(NeuroneWebAction::Bend)
        && commands.contains(NeuroneWebAction::Unbend) {
        seq![ObstacleGenerateType::Pterodactyle]
    } else {
        Seq::empty()
    };
    jump + bend
}

impl ParamsView {
    /// A usable configuration: every tunable inside the ranges the
    /// fixed-point arithmetic and the random draws need, and the derived
    /// archetype list consistent and non-empty.  The magnitude caps
    /// (`DIM_LIMIT`, `SPEED_LIMIT`, the population and elite bounds) are
    /// modeling limits forced by the machine integers, not rules of the
    /// trainer; the strict `min < max` pairs keep the uniform draws
    /// non-empty, which the generator demands on pain of a panic.
    pub open spec fn wf(self) -> bool {
        &&& 1 <= self.game_width <= DIM_LIMIT
        &&& 1 <= self.game_height <= DIM_LIMIT
        &&& 1 <= self.game_fps
        &&& self.gravity <= SPEED_LIMIT as u64
        &&& 0 <= self.dinausor_jump_velocity <= SPEED_LIMIT
        &&& 1 <= self.score_increase_speed_interval
        &&& self.min_obstacle_generation_time <= self.max_obstacle_generation_time
        &&& 0 <= self.obstacle_speed <= SPEED_LIMIT
        &&& 1 <= self.dinausor_width <= DIM_LIMIT
        &&& 1 <= self.dinausor_height <= DIM_LIMIT
        &&& 0 <= self.dinausor_x <= DIM_LIMIT
        &&& 1 <= self.cactus_width <= DIM_LIMIT
        &&& 1 <= self.cactus_height <= DIM_LIMIT
        &&& 1 <= self.rock_width <= DIM_LIMIT
        &&& 1 <= self.rock_height <= DIM_LIMIT
        &&& 1 <= self.pterodactyle_width <= DIM_LIMIT
        &&& 1 <= self.pterodactyle_height <= DIM_LIMIT
        &&& 0 <= self.pterodactyle_flying_height_with_rock <= DIM_LIMIT
        &&& 0 <= self.pterodactyle_offset_with_rock <= DIM_LIMIT
        &&& 0 <= self.pterodactyle_flying_height_without_rock <= DIM_LIMIT
        &&& 1 <= self.hole_width <= DIM_LIMIT
        &&& 0 <= self.hole_height <= DIM_LIMIT
        &&& 1 <= self.neurone_width <= DIM_LIMIT
        &&& 1 <= self.neurone_height <= DIM_LIMIT
        &&& self.neurone_width + 1 <= self.game_width
        &&& self.hole_height + HOLE_SAFE_MARGIN + self.neurone_height + 1 <= self.game_height
        &&& self.neurone_web_creation_nb_neurones_min < self.neurone_web_creation_nb_neurones_max
        &&& self.brain_creation_nb_neurone_web_min < self.brain_creation_nb_neurone_web_max
        &&& self.neurone_web_add_mutation_rate <= 1000
        &&& self.neurone_web_remove_mutation_rate <= 1000
        &&& self.neurone_web_change_action_mutation_rate <= 1000
        &&& self.neurone_add_mutation_rate <= 1000
        &&& self.neurone_remove_mutation_rate <= 1000
        &&& self.neurone_change_action_mutation_rate <= 1000
        &&& 1 <= self.neurone_x_mutation_range <= DIM_LIMIT
        &&& 1 <= self.neurone_y_mutation_range <= DIM_LIMIT
        &&& 1 <= self.training_nb_brain <= 1_000_000_000
        &&& -1_000_000_000 <= self.max_nb_brain_to_save <= 1_000_000_000
        &&& (self.terrain_seed_generation_interval matches Some(k) ==> 1 <= k)
        &&& 1 <= self.commands.len()
        &&& self.obstacle_generate_types == spec_obstacles_generation_type(self.commands)
        &&& 1 <= self.obstacle_generate_types.len()
        &&& self.obstacle_generate_types.len() <= 5
    }
}

/// Whether a vector of actions contains the given action.
pub fn contains_action(commands: &Vec<NeuroneWebAction>, action: NeuroneWebAction) -> (r: bool)
    ensures
        r == commands@.contains(action),
{
    let mut i: usize = 0;
    while i < commands.len()
        invariant
            i <= commands@.len(),
            forall|j: int| 0 <= j < i ==> commands@[j] != action,
        decreases commands@.len() - i,
    {
        if commands[i] == action {
            return true;
        }
        i = i + 1;
    }
    false
}

impl GameParameters {
    /// The archetypes that may spawn given the configured action set.
    pub fn get_obstacles_generation_type(&self) -> (r: Vec<ObstacleGenerateType>)
        ensures
            r@ == spec_obstacles_generation_type(self.commands@),
    {
        let mut vector: Vec<ObstacleGenerateType> = Vec::new();
        if contains_action(&self.commands, NeuroneWebAction::Jump) {
            vector.push(ObstacleGenerateType::Cactus);
            vector.push(ObstacleGenerateType::Rock);
            vector.push(ObstacleGenerateType::RockAndPterodactyle);
            vector.push(ObstacleGenerateType::RockAndHole);
        }
        if contains_action(&self.commands, NeuroneWebAction::Bend) && contains_action(
            &self.commands,
            NeuroneWebAction::Unbend,
        ) {
            vector.push(ObstacleGenerateType::Pterodactyle);
        }
        proof {
            assert(vector@ =~= spec_obstacles_generation_type(self.commands@));
        }
        vector
    }

    /// The stock configuration: a 1280 by 720 field at 60 frames per
    /// second, jump-only brains, and the tuning the trainer ships with.
    pub fn new_default() -> (r: GameParameters)
        ensures
            r@.wf(),
            r@ == spec_default_params(),
    {
        let mut params = GameParameters {
            game_width: 1_280_000,
            game_height: 720_000,
            game_fps: 60,
            land_seed: "gra".to_owned(),
            gravity: 2_000_000,
            commands: vec![NeuroneWebAction::Jump],
            obstacle_generate_types: Vec::new(),
            dinausor_jump_velocity: 800_000,
            score_increase_speed_interval: 2,
            min_obstacle_generation_time: 1_200_000,
            max_obstacle_generation_time: 2_000_000,
            obstacle_generation_time_decrease_speed: 200_000,
            obstacle_speed: 400_000,
            dinausor_width: 40_000,
            dinausor_height: 100_000,
            dinausor_x: 50_000,
            cactus_width: 40_000,
            cactus_height: 100_000,
            rock_width: 40_000,
            rock_height: 40_000,
            pterodactyle_width: 120_000,
            pterodactyle_height: 40_000,
            pterodactyle_flying_height_with_rock: 110_000,
            pterodactyle_offset_with_rock: 65_000,
            pterodactyle_flying_height_without_rock: 95_000,
            hole_width: 90_000,
            hole_height: 2_000,
            brain_seed: "Intellect".to_owned(),
            neurone_width: 20_000,
            neurone_height: 20_000,
            neurone_web_creation_nb_neurones_min: 2,
            neurone_web_creation_nb_neurones_max: 6,
            brain_creation_nb_neurone_web_min: 1,
            brain_creation_nb_neurone_web_max: 3,
            neurone_web_add_mutation_rate: 400,
            neurone_web_remove_mutation_rate: 400,
            neurone_web_change_action_mutation_rate: 1,
            neurone_add_mutation_rate: 400,
            neurone_remove_mutation_rate: 400,
            neurone_change_action_mutation_rate: 1,
            neurone_x_mutation_range: 50_000,
            neurone_y_mutation_range: 50_000,
            training_nb_brain: 1000,
            max_nb_brain_to_save: 50,
            neuron_cost_mult: 5,
            neuron_cost_flat: 100_000,
            neuron_web_cost_mult: 15,
            neuron_web_cost_flat: 1_000_000,
            terrain_seed_generation_interval: None,
        };
        let types = params.get_obstacles_generation_type();
        params.obstacle_generate_types = types;
        proof {
            assert(params.commands@ =~= seq![NeuroneWebAction::Jump]);
            assert(params@ =~= spec_default_params());
        }
        params
    }
}

/// The view of the stock configuration.
pub open spec fn spec_default_params() -> ParamsView {
    ParamsView {
        game_width: 1_280_000,
        game_height: 720_000,
        game_fps: 60,
        land_seed: encode_utf8("gra"@),
        gravity: 2_000_000,
        commands: seq![NeuroneWebAction::Jump],
        obstacle_generate_types: spec_obstacles_generation_type(seq![NeuroneWebAction::Jump]),
        dinausor_jump_velocity: 800_000,
        score_increase_speed_interval: 2,
        min_obstacle_generation_time: 1_200_000,
        max_obstacle_generation_time: 2_000_000,
        obstacle_generation_time_decrease_speed: 200_000,
        obstacle_speed: 400_000,
        dinausor_width: 40_000,
        dinausor_height: 100_000,
        dinausor_x: 50_000,
        cactus_width: 40_000,
        cactus_height: 100_000,
        rock_width: 40_000,
        rock_height: 40_000,
        pterodactyle_width: 120_000,
        pterodactyle_height: 40_000,
        pterodactyle_flying_height_with_rock: 110_000,
        pterodactyle_offset_with_rock: 65_000,
        pterodactyle_flying_height_without_rock: 95_000,
        hole_width: 90_000,
        hole_height: 2_000,
        brain_seed: encode_utf8("Intellect"@),
        neurone_width: 20_000,
        neurone_height: 20_000,
        neurone_web_creation_nb_neurones_min: 2,
        neurone_web_creation_nb_neurones_max: 6,
        brain_creation_nb_neurone_web_min: 1,
        brain_creation_nb_neurone_web_max: 3,
        neurone_web_add_mutation_rate: 400,
        neurone_web_remove_mutation_rate: 400,
        neurone_web_change_action_mutation_rate: 1,
        neurone_add_mutation_rate: 400,
        neurone_remove_mutation_rate: 400,
        neurone_change_action_mutation_rate: 1,
        neurone_x_mutation_range: 50_000,
        neurone_y_mutation_range: 50_000,
        training_nb_brain: 1000,
        max_nb_brain_to_save: 50,
        neuron_cost_mult: 5,
        neuron_cost_flat: 100_000,
        neuron_web_cost_mult: 15,
        neuron_web_cost_flat: 1_000_000,
        terrain_seed_generation_interval: None,
    }
}

/// Whether two byte slices hold the same bytes.
pub fn bytes_eq(a: &[u8], b: &[u8]) -> (r: bool)
    ensures
        r == (a@ == b@),
{
    if a.len() != b.len() {
        proof {
            assert(a@.len() != b@.len());
        }
        return false;
    }
    let mut i: usize = 0;
    while i < a.len()
        invariant
            a@.len() == b@.len(),
            i <= a@.len(),
            forall|j: int| 0 <= j < i ==> a@[j] == b@[j],
        decreases a@.len() - i,
    {
        if a[i] != b[i] {
            return false;
        }
        i = i + 1;
    }
    proof {
        assert(a@ =~= b@);
    }
    true
}

/// Whether two action lists hold the same actions in the same order.
fn actions_eq(a: &Vec<NeuroneWebAction>, b: &Vec<NeuroneWebAction>) -> (r: bool)
    ensures
        r == (a@ == b@),
{
    if a.len() != b.len() {
        proof {
            assert(a@.len() != b@.len());
        }
        return false;
    }
    let mut i: usize = 0;
    while i < a.len()
        invariant
            a@.len() == b@.len(),
            i <= a@.len(),
            forall|j: int| 0 <= j < i ==> a@[j] == b@[j],
        decreases a@.len() - i,
    {
        if a[i] != b[i] {
            return false;
        }
        i = i + 1;
    }
    proof {
        assert(a@ =~= b@);
    }
    true
}

/// Whether two archetype lists hold the same archetypes in the same order.
fn generate_types_eq(a: &Vec<ObstacleGenerateType>, b: &Vec<ObstacleGenerateType>) -> (r: bool)
    ensures
        r == (a@ == b@),
{
    if a.len() != b.len() {
        proof {
            assert(a@.len() != b@.len());
        }
        return false;
    }
    let mut i: usize = 0;
    while i < a.len()
        invariant
            a@.len() == b@.len(),
            i <= a@.len(),
            forall|j: int| 0 <= j < i ==> a@[j] == b@[j],
        decreases a@.len() - i,
    {
        if a[i] != b[i] {
            return false;
        }
        i = i + 1;
    }
    proof {
        assert(a@ =~= b@);
    }
    true
}

/// Whether two configurations are byte-equal, field for field.  Resuming a
/// run demands this of the saved and the active configuration.
pub fn params_match(a: &GameParameters, b: &GameParameters) -> (r: bool)
    ensures
        r == (a@ == b@),
{
    let numeric = a.game_width == b.game_width && a.game_height == b.game_height && a.game_fps
        == b.game_fps && a.gravity == b.gravity && a.dinausor_jump_velocity
        == b.dinausor_jump_velocity && a.score_increase_speed_interval
        == b.score_increase_speed_interval && a.min_obstacle_generation_time
        == b.min_obstacle_generation_time && a.max_obstacle_generation_time
        == b.max_obstacle_generation_time && a.obstacle_generation_time_decrease_speed
        == b.obstacle_generation_time_decrease_speed && a.obstacle_speed == b.obstacle_speed
        && a.dinausor_width == b.dinausor_width && a.dinausor_height == b.dinausor_height
        && a.dinausor_x == b.dinausor_x && a.cactus_width == b.cactus_width && a.cactus_height
        == b.cactus_height && a.rock_width == b.rock_width && a.rock_height == b.rock_height
        && a.pterodactyle_width == b.pterodactyle_width && a.pterodactyle_height
        == b.pterodactyle_height && a.pterodactyle_flying_height_with_rock
        == b.pterodactyle_flying_height_with_rock && a.pterodactyle_offset_with_rock
        == b.pterodactyle_offset_with_rock && a.pterodactyle_flying_height_without_rock
        == b.pterodactyle_flying_height_without_rock && a.hole_width == b.hole_width
        && a.hole_height == b.hole_height && a.neurone_width == b.neurone_width
        && a.neurone_height == b.neurone_height && a.neurone_web_creation_nb_neurones_min
        == b.neurone_web_creation_nb_neurones_min && a.neurone_web_creation_nb_neurones_max
        == b.neurone_web_creation_nb_neurones_max && a.brain_creation_nb_neurone_web_min
        == b.brain_creation_nb_neurone_web_min && a.brain_creation_nb_neurone_web_max
        == b.brain_creation_nb_neurone_web_max && a.neurone_web_add_mutation_rate
        == b.neurone_web_add_mutation_rate && a.neurone_web_remove_mutation_rate
        == b.neurone_web_remove_mutation_rate && a.neurone_web_change_action_mutation_rate
        == b.neurone_web_change_action_mutation_rate && a.neurone_add_mutation_rate
        == b.neurone_add_mutation_rate && a.neurone_remove_mutation_rate
        == b.neurone_remove_mutation_rate && a.neurone_change_action_mutation_rate
        == b.neurone_change_action_mutation_rate && a.neurone_x_mutation_range
        == b.neurone_x_mutation_range && a.neurone_y_mutation_range == b.neurone_y_mutation_range
        && a.training_nb_brain == b.training_nb_brain && a.max_nb_brain_to_save
        == b.max_nb_brain_to_save && a.neuron_cost_mult == b.neuron_cost_mult && a.neuron_cost_flat
        == b.neuron_cost_flat && a.neuron_web_cost_mult == b.neuron_web_cost_mult
        && a.neuron_web_cost_flat == b.neuron_web_cost_flat;
    let interval = match (a.terrain_seed_generation_interval, b.terrain_seed_generation_interval) {
        (None, None) => true,
        (Some(x), Some(y)) => x == y,
        _ => false,
    };
    let r = numeric && interval && bytes_eq(a.land_seed.as_str().as_bytes(), b.land_seed.as_str().as_bytes())
        && bytes_eq(a.brain_seed.as_str().as_bytes(), b.brain_seed.as_str().as_bytes())
        && actions_eq(&a.commands, &b.commands) && generate_types_eq(
        &a.obstacle_generate_types,
        &b.obstacle_generate_types,
    );
    r
}

/// Copy a configuration, field for field.
pub fn copy_params(params: &GameParameters) -> (r: GameParameters)
    ensures
        r@ == params@,
{
    GameParameters {
        game_width: params.game_width,
        game_height: params.game_height,
        game_fps: params.game_fps,
        land_seed: clone_string(&params.land_seed),
        gravity: params.gravity,
        commands: clone_actions(&params.commands),
        obstacle_generate_types: clone_generate_types(&params.obstacle_generate_types),
        dinausor_jump_velocity: params.dinausor_jump_velocity,
        score_increase_speed_interval: params.score_increase_speed_interval,
        min_obstacle_generation_time: params.min_obstacle_generation_time,
        max_obstacle_generation_time: params.max_obstacle_generation_time,
        obstacle_generation_time_decrease_speed: params.obstacle_generation_time_decrease_speed,
        obstacle_speed: params.obstacle_speed,
        dinausor_width: params.dinausor_width,
        dinausor_height: params.dinausor_height,
        dinausor_x: params.dinausor_x,
        cactus_width: params.cactus_width,
        cactus_height: params.cactus_height,
        rock_width: params.rock_width,
        rock_height: params.rock_height,
        pterodactyle_width: params.pterodactyle_width,
        pterodactyle_height: params.pterodactyle_height,
        pterodactyle_flying_height_with_rock: params.pterodactyle_flying_height_with_rock,
        pterodactyle_offset_with_rock: params.pterodactyle_offset_with_rock,
        pterodactyle_flying_height_without_rock: params.pterodactyle_flying_height_without_rock,
        hole_width: params.hole_width,
        hole_height: params.hole_height,
        brain_seed: clone_string(&params.brain_seed),
        neurone_width: params.neurone_width,
        neurone_height: params.neurone_height,
        neurone_web_creation_nb_neurones_min: params.neurone_web_creation_nb_neurones_min,
        neurone_web_creation_nb_neurones_max: params.neurone_web_creation_nb_neurones_max,
        brain_creation_nb_neurone_web_min: params.brain_creation_nb_neurone_web_min,
        brain_creation_nb_neurone_web_max: params.brain_creation_nb_neurone_web_max,
        neurone_web_add_mutation_rate: params.neurone_web_add_mutation_rate,
        neurone_web_remove_mutation_rate: params.neurone_web_remove_mutation_rate,
        neurone_web_change_action_mutation_rate: params.neurone_web_change_action_mutation_rate,
        neurone_add_mutation_rate: params.neurone_add_mutation_rate,
        neurone_remove_mutation_rate: params.neurone_remove_mutation_rate,
        neurone_change_action_mutation_rate: params.neurone_change_action_mutation_rate,
        neurone_x_mutation_range: params.neurone_x_mutation_range,
        neurone_y_mutation_range: params.neurone_y_mutation_range,
        training_nb_brain: params.training_nb_brain,
        max_nb_brain_to_save: params.max_nb_brain_to_save,
        neuron_cost_mult: params.neuron_cost_mult,
        neuron_cost_flat: params.neuron_cost_flat,
        neuron_web_cost_mult: params.neuron_web_cost_mult,
        neuron_web_cost_flat: params.neuron_web_cost_flat,
        terrain_seed_generation_interval: match params.terrain_seed_generation_interval {
            Some(k) => Some(k),
            None => None,
        },
    }
}

/// Copy a string, keeping its characters.
fn clone_string(s: &String) -> (r: String)
    ensures
        r@ == s@,
{
    s.clone()
}

/// Copy an action list, keeping its elements.
fn clone_actions(v: &Vec<NeuroneWebAction>) -> (r: Vec<NeuroneWebAction>)
    ensures
        r@ == v@,
{
    let mut r: Vec<NeuroneWebAction> = Vec::new();
    let mut i: usize = 0;
    while i < v.len()
        invariant
            i <= v@.len(),
            r@ == v@.take(i as int),
        decreases v@.len() - i,
    {
        r.push(v[i]);
        proof {
            assert(r@ =~= v@.take(i as int + 1));
        }
        i = i + 1;
    }
    proof {
        assert(v@.take(v@.len() as int) =~= v@);
    }
    r
}

/// Copy an archetype list, keeping its elements.
fn clone_generate_types(v: &Vec<ObstacleGenerateType>) -> (r: Vec<ObstacleGenerateType>)
    ensures
        r@ == v@,
{
    let mut r: Vec<ObstacleGenerateType> = Vec::new();
    let mut i: usize = 0;
    while i < v.len()
        invariant
            i <= v@.len(),
            r@ == v@.take(i as int),
        decreases v@.len() - i,
    {
        r.push(v[i]);
        proof {
            assert(r@ =~= v@.take(i as int + 1));
        }
        i = i + 1;
    }
    proof {
        assert(v@.take(v@.len() as int) =~= v@);
    }
    r
}

} // verus!
