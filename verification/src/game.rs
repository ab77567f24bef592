//! The simulation engine: one dinosaur and its obstacles over time.
//!
//! A `Game` advances on an external tick.  Each update integrates the
//! physics, tests collisions, spawns obstacles on a score-scaled schedule
//! from the terrain generator, applies the brain's actions, and scores every
//! obstacle that leaves the field.  The whole step is pinned to
//! `spec_game_update`, a pure function of the game view, so identically
//! seeded games evolve identically.

use vstd::prelude::*;
use vstd::string::StringSliceAdditionalSpecFns;
use crate::brain::ActionSet;
use crate::brain::Brain;
use crate::brain::spec_activations;
use crate::brain::spec_brain_coord_ok;
use crate::brain::spec_brain_wf;
use crate::brain::lemma_brain_wf_coord_ok;
use crate::entity::Dinosaur;
use crate::entity::Obstacle;
use crate::entity::ObstacleEntityType;
use crate::entity::ObstacleGenerateType;
use crate::error::TrainError;
use crate::neurone::NeuroneWebAction;
use crate::neurone::WebView;
use crate::neurone::all_obstacles_wf;
use crate::params::GameParameters;
use crate::params::LIMIT_SCORE;
use crate::params::ParamsView;
use crate::params::copy_params;
use crate::rng::RngDraw;
use crate::rng::TrainRng;
use crate::rng::seed_origin;
use crate::rng::rng_range_val;
use crate::utils::check_collision;
use crate::utils::get_scale_value;
use crate::utils::sat_add;
use crate::utils::spec_check_collision;
use crate::utils::spec_sat_add;
use crate::utils::spec_scale_value;
use crate::utils::spec_str_to_u8_array;
use crate::utils::str_to_u8_array;

verus! {

/// The mathematical image of a game.
#[verifier::ext_equal]
pub ghost struct GameView {
    pub dinosaur: Dinosaur,
    pub obstacles: Seq<Obstacle>,
    pub score: u64,
    pub has_lost: bool,
    pub last_time_update: u64,
    pub next_obstacle_time: u64,
    pub game_start_time: u64,
    pub rng_origin: Seq<u8>,
    pub rng_history: Seq<RngDraw>,
    pub brain: Option<Seq<WebView>>,
    pub params: ParamsView,
}

impl GameView {
    /// Every part of the game is well-formed.
    pub open spec fn wf(self) -> bool {
        &&& self.params.wf()
        &&& self.dinosaur.wf()
        &&& all_obstacles_wf(self.obstacles)
        &&& (self.brain matches Some(bv) ==> spec_brain_wf(bv, self.params))
    }
}

/// One game instance, owning its own terrain generator and optional brain.
pub struct Game {
    pub dinosaur: Dinosaur,
    pub obstacles: Vec<Obstacle>,
    pub score: u64,
    pub has_lost: bool,
    pub params: GameParameters,
    /// When the game state was last advanced.
    pub last_time_update: u64,
    /// When the next obstacle spawns.
    pub next_obstacle_time: u64,
    /// When the game started.
    pub game_start_time: u64,
    /// The terrain generator, seeded from the land seed.
    pub land_rng: TrainRng,
    /// The controlling brain, if the game plays itself.
    pub brain: Option<Brain>,
}

impl View for Game {
    type V = GameView;

    open spec fn view(&self) -> GameView {
        GameView {
            dinosaur: self.dinosaur,
            obstacles: self.obstacles@,
            score: self.score,
            has_lost: self.has_lost,
            last_time_update: self.last_time_update,
            next_obstacle_time: self.next_obstacle_time,
            game_start_time: self.game_start_time,
            rng_origin: self.land_rng.origin(),
            rng_history: self.land_rng.history(),
            brain: match self.brain {
                Some(b) => Some(b@),
                None => None,
            },
            params: self.params@,
        }
    }
}

// --------------------------------------------------------------------------
// The pure model of one update
// --------------------------------------------------------------------------

/// The obstacles from index `i` on, each advanced to `now`, appended to
/// `acc`.
pub open spec fn spec_obstacles_advance(
    obstacles: Seq<Obstacle>,
    now: u64,
    i: int,
    acc: Seq<Obstacle>,
) -> Seq<Obstacle>
    decreases obstacles.len() - i,
{
    if i < 0 || i >= obstacles.len() {
        acc
    } else {
        spec_obstacles_advance(obstacles, now, i + 1, acc.push(obstacles[i].spec_update(now)))
    }
}

/// The obstacles from index `i` on that are still on or right of the field,
/// appended to `acc`; the rest have fully exited on the left and are
/// dropped (scoring one point each).
pub open spec fn spec_obstacles_cull(obstacles: Seq<Obstacle>, i: int, acc: Seq<Obstacle>) -> Seq<
    Obstacle,
>
    decreases obstacles.len() - i,
{
    if i < 0 || i >= obstacles.len() {
        acc
    } else {
        if obstacles[i].x + obstacles[i].width < 0 {
            spec_obstacles_cull(obstacles, i + 1, acc)
        } else {
            spec_obstacles_cull(obstacles, i + 1, acc.push(obstacles[i]))
        }
    }
}

/// The dinosaur overlaps some obstacle.
pub open spec fn spec_any_collision(d: Dinosaur, obstacles: Seq<Obstacle>) -> bool {
    exists|i: int|
        0 <= i < obstacles.len() && spec_check_collision(
            d.x as int,
            d.y as int,
            d.width as int,
            d.height as int,
            (#[trigger] obstacles[i]).x as int,
            obstacles[i].y as int,
            obstacles[i].width as int,
            obstacles[i].height as int,
        )
}

/// When the obstacle after `last_time` spawns: the spawn interval shrinks
/// with the score down the configured staircase.  The result can exceed the
/// clock range; callers must treat that as a fatal clock overflow.
pub open spec fn spec_next_obstacle_timing(pv: ParamsView, last_time: u64, score: u64) -> int {
    last_time + spec_scale_value(
        pv.max_obstacle_generation_time,
        pv.min_obstacle_generation_time,
        pv.obstacle_generation_time_decrease_speed,
        score,
        pv.score_increase_speed_interval,
        true,
    )
}

/// The obstacles one spawn event of the drawn archetype adds, at the right
/// edge of the field, timed for the next spawn.
pub open spec fn spec_spawned(
    pv: ParamsView,
    t: ObstacleGenerateType,
    new_time: u64,
) -> Seq<Obstacle> {
    let x = pv.game_width + pv.pterodactyle_offset_with_rock;
    match t {
        ObstacleGenerateType::Cactus => seq![
            Obstacle::spec_new(pv, x as int, pv.obstacle_speed, new_time, ObstacleEntityType::Cactus),
        ],
        ObstacleGenerateType::Rock => seq![
            Obstacle::spec_new(pv, x as int, pv.obstacle_speed, new_time, ObstacleEntityType::Rock),
        ],
        ObstacleGenerateType::RockAndPterodactyle => seq![
            Obstacle::spec_new(pv, x as int, pv.obstacle_speed, new_time, ObstacleEntityType::Rock),
            Obstacle::spec_new(
                pv,
                x as int,
                pv.obstacle_speed,
                new_time,
                ObstacleEntityType::PterodactyleWithRock,
            ),
        ],
        ObstacleGenerateType::RockAndHole => seq![
            Obstacle::spec_new(pv, x as int, pv.obstacle_speed, new_time, ObstacleEntityType::Rock),
            Obstacle::spec_new(pv, x as int, pv.obstacle_speed, new_time, ObstacleEntityType::Hole),
        ],
        ObstacleGenerateType::Pterodactyle => seq![
            Obstacle::spec_new(
                pv,
                x as int,
                pv.obstacle_speed,
                new_time,
                ObstacleEntityType::Pterodactyle,
            ),
        ],
    }
}

/// One spawn event on the game view: the spawn time is recomputed from the
/// score, one archetype is drawn from the terrain generator, and its
/// obstacles are appended.  `None` when the new spawn time overflows the
/// clock.
pub open spec fn spec_generate_next_obstacle(gv: GameView) -> Option<GameView> {
    let timing = spec_next_obstacle_timing(gv.params, gv.next_obstacle_time, gv.score);
    if timing > u64::MAX {
        None
    } else {
        let new_time = timing as u64;
        let idx = rng_range_val(
            gv.rng_origin,
            gv.rng_history,
            0,
            gv.params.obstacle_generate_types.len() as u64,
        );
        let h1 = gv.rng_history.push(
            (0int, 0int, gv.params.obstacle_generate_types.len() as int),
        );
        let spawned = spec_spawned(gv.params, gv.params.obstacle_generate_types[idx as int], new_time);
        Some(
            GameView {
                obstacles: gv.obstacles + spawned,
                next_obstacle_time: new_time,
                rng_history: h1,
                ..gv
            },
        )
    }
}

/// The dinosaur after one requested action.
pub open spec fn spec_do_action(d: Dinosaur, pv: ParamsView, action: NeuroneWebAction) -> Dinosaur {
    match action {
        NeuroneWebAction::Jump => d.spec_jump(pv.dinausor_jump_velocity).1,
        NeuroneWebAction::Bend => d.spec_bend().1,
        NeuroneWebAction::Unbend => d.spec_unbend().1,
    }
}

/// The dinosaur after applying a whole action set, in the fixed order jump,
/// bend, unbend.
pub open spec fn spec_do_actions(d: Dinosaur, pv: ParamsView, actions: ActionSet) -> Dinosaur {
    let d1 = if actions.jump {
        spec_do_action(d, pv, NeuroneWebAction::Jump)
    } else {
        d
    };
    let d2 = if actions.bend {
        spec_do_action(d1, pv, NeuroneWebAction::Bend)
    } else {
        d1
    };
    if actions.unbend {
        spec_do_action(d2, pv, NeuroneWebAction::Unbend)
    } else {
        d2
    }
}

/// The actions the game's brain requests, if it has one.
pub open spec fn spec_brain_actions(gv: GameView) -> ActionSet {
    match gv.brain {
        None => ActionSet::spec_empty(),
        Some(bv) => spec_activations(bv, gv.obstacles),
    }
}

/// One whole tick on the game view, to time `now`: character physics,
/// obstacle advance, collision test (a hit ends the tick at once), spawning
/// on schedule, the brain's actions, and finally the bookkeeping that drops
/// fully-exited obstacles and scores one point for each.  `None` when the
/// spawn time overflows the clock.
pub open spec fn spec_game_update(gv: GameView, now: u64) -> Option<GameView> {
    let d1 = gv.dinosaur.spec_update(gv.params.gravity, now);
    let obs1 = spec_obstacles_advance(gv.obstacles, now, 0, Seq::empty());
    let gv1 = GameView { dinosaur: d1, obstacles: obs1, ..gv };
    if spec_any_collision(d1, obs1) {
        Some(GameView { has_lost: true, ..gv1 })
    } else {
        let after_spawn = if now >= gv.next_obstacle_time {
            spec_generate_next_obstacle(gv1)
        } else {
            Some(gv1)
        };
        match after_spawn {
            None => None,
            Some(gv2) => {
                let actions = spec_brain_actions(gv2);
                let d2 = spec_do_actions(gv2.dinosaur, gv2.params, actions);
                let obs3 = spec_obstacles_cull(gv2.obstacles, 0, Seq::empty());
                let removed = gv2.obstacles.len() - obs3.len();
                let score3 = spec_sat_add(gv2.score, removed as u64);
                Some(
                    GameView {
                        dinosaur: d2,
                        obstacles: obs3,
                        score: score3,
                        last_time_update: now,
                        ..gv2
                    },
                )
            },
        }
    }
}

impl Game {
    /// Create a game at time `now`, with the terrain generator seeded from
    /// the seed string.
    pub fn new(params: &GameParameters, now: u64, seed: &str, brain: Option<Brain>) -> (r: Game)
        requires
            params@.wf(),
            brain matches Some(b) ==> spec_brain_wf(b@, params@),
        ensures
            r@ == (GameView {
                dinosaur: Dinosaur::spec_new(params@, now),
                obstacles: Seq::empty(),
                score: 0,
                has_lost: false,
                last_time_update: now,
                next_obstacle_time: now,
                game_start_time: now,
                rng_origin: seed_origin(spec_str_to_u8_array(seed.spec_bytes())),
                rng_history: Seq::empty(),
                brain: match brain {
                    Some(b) => Some(b@),
                    None => None,
                },
                params: params@,
            }),
            r@.wf(),
    {
        let seed_bytes = str_to_u8_array(seed);
        Game {
            dinosaur: Dinosaur::new_dinosaur(params, now),
            obstacles: Vec::new(),
            score: 0,
            has_lost: false,
            last_time_update: now,
            next_obstacle_time: now,
            game_start_time: now,
            land_rng: TrainRng::from_seed(seed_bytes),
            brain,
            params: copy_params(params),
        }
    }

    /// When the obstacle after `last_time` spawns; `None` when that time
    /// overflows the clock.
    pub fn get_next_obstacle_timing(&self, last_time: u64, score: u64) -> (r: Option<u64>)
        requires
            self@.params.wf(),
        ensures
            match r {
                Some(t) => t == spec_next_obstacle_timing(self@.params, last_time, score),
                None => spec_next_obstacle_timing(self@.params, last_time, score) > u64::MAX,
            },
    {
        let interval = get_scale_value(
            self.params.max_obstacle_generation_time,
            self.params.min_obstacle_generation_time,
            self.params.obstacle_generation_time_decrease_speed,
            score,
            self.params.score_increase_speed_interval,
            true,
        );
        if last_time <= u64::MAX - interval {
            Some(last_time + interval)
        } else {
            None
        }
    }

    /// Spawn the next obstacle set and reschedule the spawn clock; an
    /// error when the spawn time overflows the clock, leaving the game
    /// unchanged.
    pub fn generate_next_obstacle(&mut self) -> (r: Result<(), TrainError>)
        requires
            old(self)@.wf(),
        ensures
            match r {
                Ok(()) => Some(final(self)@) == spec_generate_next_obstacle(old(self)@),
                Err(e) => {
                    &&& e == TrainError::ClockOverflow
                    &&& spec_generate_next_obstacle(old(self)@) is None
                    &&& final(self)@ == old(self)@
                },
            },
            final(self)@.wf(),
    {
        let new_next_obstacle_time = match self.get_next_obstacle_timing(
            self.next_obstacle_time,
            self.score,
        ) {
            Some(t) => t,
            None => {
                return Err(TrainError::ClockOverflow);
            },
        };
        let x = self.params.game_width + self.params.pterodactyle_offset_with_rock;
        let n = self.obstacle_types_len();
        let random_obstacle_index = self.land_rng.gen_range_u64(0, n);
        let random_obstacle = self.params.obstacle_generate_types[random_obstacle_index as usize];
        match random_obstacle {
            ObstacleGenerateType::Cactus => {
                let o = Obstacle::new(
                    &self.params,
                    x,
                    self.params.obstacle_speed,
                    new_next_obstacle_time,
                    ObstacleEntityType::Cactus,
                );
                self.obstacles.push(o);
            },
            ObstacleGenerateType::Rock => {
                let o = Obstacle::new(
                    &self.params,
                    x,
                    self.params.obstacle_speed,
                    new_next_obstacle_time,
                    ObstacleEntityType::Rock,
                );
                self.obstacles.push(o);
            },
            ObstacleGenerateType::RockAndPterodactyle => {
                let o1 = Obstacle::new(
                    &self.params,
                    x,
                    self.params.obstacle_speed,
                    new_next_obstacle_time,
                    ObstacleEntityType::Rock,
                );
                self.obstacles.push(o1);
                let o2 = Obstacle::new(
                    &self.params,
                    x,
                    self.params.obstacle_speed,
                    new_next_obstacle_time,
                    ObstacleEntityType::PterodactyleWithRock,
                );
                self.obstacles.push(o2);
            },
            ObstacleGenerateType::RockAndHole => {
                let o1 = Obstacle::new(
                    &self.params,
                    x,
                    self.params.obstacle_speed,
                    new_next_obstacle_time,
                    ObstacleEntityType::Rock,
                );
                self.obstacles.push(o1);
                let o2 = Obstacle::new(
                    &self.params,
                    x,
                    self.params.obstacle_speed,
                    new_next_obstacle_time,
                    ObstacleEntityType::Hole,
                );
                self.obstacles.push(o2);
            },
            ObstacleGenerateType::Pterodactyle => {
                let o = Obstacle::new(
                    &self.params,
                    x,
                    self.params.obstacle_speed,
                    new_next_obstacle_time,
                    ObstacleEntityType::Pterodactyle,
                );
                self.obstacles.push(o);
            },
        }
        self.next_obstacle_time = new_next_obstacle_time;
        proof {
            assert(final(self)@ =~= spec_generate_next_obstacle(old(self)@).unwrap());
        }
        Ok(())
    }

    /// How many obstacle archetypes can spawn.
    fn obstacle_types_len(&self) -> (r: u64)
        requires
            self@.params.wf(),
        ensures
            r == self@.params.obstacle_generate_types.len(),
            1 <= r <= 5,
    {
        self.params.obstacle_generate_types.len() as u64
    }

    /// Advance every obstacle to `now`, in place and in order.
    pub fn update_all_obstacles(&mut self, now: u64)
        requires
            old(self)@.wf(),
        ensures
            final(self)@ == (GameView {
                obstacles: spec_obstacles_advance(old(self)@.obstacles, now, 0, Seq::empty()),
                ..old(self)@
            }),
            final(self)@.wf(),
    {
        let mut advanced: Vec<Obstacle> = Vec::new();
        let mut i: usize = 0;
        let n = self.obstacles.len();
        while i < n
            invariant
                old(self)@.wf(),
                self@ == old(self)@,
                n == self.obstacles@.len(),
                i <= n,
                all_obstacles_wf(advanced@),
                spec_obstacles_advance(self.obstacles@, now, 0, Seq::empty())
                    == spec_obstacles_advance(self.obstacles@, now, i as int, advanced@),
            decreases n - i,
        {
            proof {
                assert(self.obstacles@[i as int].wf());
            }
            let mut o = self.obstacles[i];
            o.update(now);
            advanced.push(o);
            i = i + 1;
        }
        self.obstacles = advanced;
        proof {
            assert(final(self)@ =~= (GameView {
                obstacles: spec_obstacles_advance(old(self)@.obstacles, now, 0, Seq::empty()),
                ..old(self)@
            }));
        }
    }

    /// Drop every obstacle that has fully exited the field on the left,
    /// scoring one point for each.
    pub fn remove_exited_obstacles(&mut self)
        requires
            old(self)@.wf(),
        ensures
            final(self)@ == (GameView {
                obstacles: spec_obstacles_cull(old(self)@.obstacles, 0, Seq::empty()),
                score: spec_sat_add(
                    old(self)@.score,
                    (old(self)@.obstacles.len() - spec_obstacles_cull(
                        old(self)@.obstacles,
                        0,
                        Seq::empty(),
                    ).len()) as u64,
                ),
                ..old(self)@
            }),
            final(self)@.wf(),
    {
        let mut kept: Vec<Obstacle> = Vec::new();
        let mut i: usize = 0;
        let n = self.obstacles.len();
        while i < n
            invariant
                old(self)@.wf(),
                self@ == old(self)@,
                n == self.obstacles@.len(),
                i <= n,
                kept@.len() <= i,
                all_obstacles_wf(kept@),
                spec_obstacles_cull(self.obstacles@, 0, Seq::empty()) == spec_obstacles_cull(
                    self.obstacles@,
                    i as int,
                    kept@,
                ),
            decreases n - i,
        {
            proof {
                assert(self.obstacles@[i as int].wf());
            }
            let o = self.obstacles[i];
            if o.x + o.width < 0 {
                // fully off the left edge: scored and removed
            } else {
                kept.push(o);
            }
            i = i + 1;
        }
        let removed: usize = self.obstacles.len() - kept.len();
        self.score = sat_add(self.score, removed as u64);
        self.obstacles = kept;
        proof {
            assert(final(self)@ =~= (GameView {
                obstacles: spec_obstacles_cull(old(self)@.obstacles, 0, Seq::empty()),
                score: spec_sat_add(
                    old(self)@.score,
                    (old(self)@.obstacles.len() - spec_obstacles_cull(
                        old(self)@.obstacles,
                        0,
                        Seq::empty(),
                    ).len()) as u64,
                ),
                ..old(self)@
            }));
        }
    }

    /// Perform one requested action on the dinosaur.
    fn do_action(&mut self, action: &NeuroneWebAction)
        requires
            old(self)@.wf(),
        ensures
            final(self)@ == (GameView {
                dinosaur: spec_do_action(old(self)@.dinosaur, old(self)@.params, *action),
                ..old(self)@
            }),
            final(self)@.wf(),
    {
        match action {
            NeuroneWebAction::Jump => {
                let params = copy_params(&self.params);
                self.dinosaur.jump(&params);
            },
            NeuroneWebAction::Bend => {
                self.dinosaur.bend();
            },
            NeuroneWebAction::Unbend => {
                self.dinosaur.unbend();
            },
        }
    }

    /// Perform all the actions in the set, in the fixed order jump, bend,
    /// unbend.
    pub fn do_actions(&mut self, actions: ActionSet)
        requires
            old(self)@.wf(),
        ensures
            final(self)@ == (GameView {
                dinosaur: spec_do_actions(old(self)@.dinosaur, old(self)@.params, actions),
                ..old(self)@
            }),
            final(self)@.wf(),
    {
        if actions.jump {
            self.do_action(&NeuroneWebAction::Jump);
        }
        if actions.bend {
            self.do_action(&NeuroneWebAction::Bend);
        }
        if actions.unbend {
            self.do_action(&NeuroneWebAction::Unbend);
        }
    }

    /// The actions the game's brain requests now (none without a brain).
    fn get_brain_actions(&self) -> (r: ActionSet)
        requires
            self@.wf(),
        ensures
            r == spec_brain_actions(self@),
    {
        match &self.brain {
            None => ActionSet::empty(),
            Some(brain) => {
                proof {
                    lemma_brain_wf_coord_ok(brain@, self@.params);
                }
                brain.get_activations(&self.obstacles)
            },
        }
    }

    /// Advance the whole game to time `now`: character physics, obstacle
    /// advance, the collision test (a hit loses the game and ends the tick),
    /// spawning on schedule, the brain's actions, and the bookkeeping that
    /// scores and drops fully-exited obstacles.  An error means the spawn
    /// clock overflowed; the game is then unusable and the simulation unit
    /// must treat it as fatal.
    #[verifier::loop_isolation(false)]
    pub fn update(&mut self, now: u64) -> (r: Result<(), TrainError>)
        requires
            old(self)@.wf(),
        ensures
            match r {
                Ok(()) => Some(final(self)@) == spec_game_update(old(self)@, now),
                Err(e) => {
                    &&& e == TrainError::ClockOverflow
                    &&& spec_game_update(old(self)@, now) is None
                    &&& final(self)@ == (GameView {
                        dinosaur: old(self)@.dinosaur.spec_update(old(self)@.params.gravity, now),
                        obstacles: spec_obstacles_advance(old(self)@.obstacles, now, 0, Seq::empty()),
                        ..old(self)@
                    })
                },
            },
            final(self)@.wf(),
    {
        let params = copy_params(&self.params);
        self.dinosaur.update(&params, now);
        self.update_all_obstacles(now);
        proof {
            assert(self@ =~= (GameView {
                dinosaur: old(self)@.dinosaur.spec_update(old(self)@.params.gravity, now),
                obstacles: spec_obstacles_advance(old(self)@.obstacles, now, 0, Seq::empty()),
                ..old(self)@
            }));
        }
        let ghost gv1 = self@;

        let mut i: usize = 0;
        let n = self.obstacles.len();
        while i < n
            invariant
                self@.wf(),
                self@ == gv1,
                n == self.obstacles@.len(),
                i <= n,
                forall|j: int|
                    0 <= j < i ==> !spec_check_collision(
                        self.dinosaur.x as int,
                        self.dinosaur.y as int,
                        self.dinosaur.width as int,
                        self.dinosaur.height as int,
                        (#[trigger] self.obstacles@[j]).x as int,
                        self.obstacles@[j].y as int,
                        self.obstacles@[j].width as int,
                        self.obstacles@[j].height as int,
                    ),
            decreases n - i,
        {
            proof {
                assert(self.obstacles@[i as int].wf());
            }
            let o = self.obstacles[i];
            if check_collision(
                self.dinosaur.x,
                self.dinosaur.y,
                self.dinosaur.width,
                self.dinosaur.height,
                o.x,
                o.y,
                o.width,
                o.height,
            ) {
                proof {
                    assert(spec_any_collision(gv1.dinosaur, gv1.obstacles));
                }
                self.has_lost = true;
                proof {
                    assert(self@ =~= (GameView { has_lost: true, ..gv1 }));
                    assert(Some(self@) == spec_game_update(old(self)@, now));
                }
                return Ok(());
            }
            i = i + 1;
        }
        proof {
            assert(!spec_any_collision(gv1.dinosaur, gv1.obstacles));
        }

        if now >= self.next_obstacle_time {
            match self.generate_next_obstacle() {
                Ok(()) => {},
                Err(e) => {
                    proof {
                        assert(spec_game_update(old(self)@, now) is None);
                    }
                    return Err(e);
                },
            }
        }
        let ghost gv2 = self@;

        let actions = self.get_brain_actions();
        self.do_actions(actions);
        self.remove_exited_obstacles();
        self.last_time_update = now;
        proof {
            assert(self@ =~= (GameView {
                dinosaur: spec_do_actions(gv2.dinosaur, gv2.params, spec_brain_actions(gv2)),
                obstacles: spec_obstacles_cull(gv2.obstacles, 0, Seq::empty()),
                score: spec_sat_add(
                    gv2.score,
                    (gv2.obstacles.len() - spec_obstacles_cull(
                        gv2.obstacles,
                        0,
                        Seq::empty(),
                    ).len()) as u64,
                ),
                last_time_update: now,
                ..gv2
            }));
            assert(Some(self@) == spec_game_update(old(self)@, now));
        }
        Ok(())
    }
}

// --------------------------------------------------------------------------
// Running one brain to a terminal state
// --------------------------------------------------------------------------

/// The score of the game run forward tick by tick until it is lost, reaches
/// the score ceiling, or exhausts `fuel` ticks; `None` when the clock or a
/// spawn time overflows.
pub open spec fn spec_run_loop(gv: GameView, now: u64, interval: u64, fuel: int) -> Option<u64>
    decreases fuel,
{
    if gv.has_lost || gv.score >= LIMIT_SCORE || fuel <= 0 {
        Some(gv.score)
    } else if now + interval > u64::MAX {
        None
    } else {
        match spec_game_update(gv, (now + interval) as u64) {
            None => None,
            Some(gv2) => spec_run_loop(gv2, (now + interval) as u64, interval, fuel - 1),
        }
    }
}

/// The score one brain reaches on the terrain named by the seed, within
/// `max_ticks` simulation ticks.
pub open spec fn spec_brain_run(
    pv: ParamsView,
    bv: Seq<WebView>,
    seed_bytes: Seq<u8>,
    max_ticks: u64,
) -> Option<u64> {
    let gv = GameView {
        dinosaur: Dinosaur::spec_new(pv, 0),
        obstacles: Seq::empty(),
        score: 0,
        has_lost: false,
        last_time_update: 0,
        next_obstacle_time: 0,
        game_start_time: 0,
        rng_origin: seed_origin(spec_str_to_u8_array(seed_bytes)),
        rng_history: Seq::empty(),
        brain: Some(bv),
        params: pv,
    };
    spec_run_loop(gv, 0, (1_000_000u64 / pv.game_fps as u64) as u64, max_ticks as int)
}

/// Run one brain on the terrain named by `seed` until it loses or reaches
/// the score ceiling (or, defensively, exhausts `max_ticks`), and return its
/// score.  An error means the simulated clock overflowed, which is fatal for
/// this simulation unit.
#[verifier::loop_isolation(false)]
pub fn brain_run(params: &GameParameters, brain: Brain, seed: &str, max_ticks: u64) -> (r: Result<
    u64,
    TrainError,
>)
    requires
        params@.wf(),
        spec_brain_wf(brain@, params@),
    ensures
        match r {
            Ok(score) => spec_brain_run(params@, brain@, seed.spec_bytes(), max_ticks) == Some(
                score,
            ),
            Err(e) => {
                &&& e == TrainError::ClockOverflow
                &&& spec_brain_run(params@, brain@, seed.spec_bytes(), max_ticks) is None
            },
        },
{
    let ghost bv = brain@;
    let mut now: u64 = 0;
    let mut game = Game::new(params, now, seed, Some(brain));
    let interval: u64 = 1_000_000 / (params.game_fps as u64);
    let mut ticks: u64 = 0;
    while !game.has_lost && game.score < LIMIT_SCORE && ticks < max_ticks
        invariant
            game@.wf(),
            ticks <= max_ticks,
            spec_brain_run(params@, bv, seed.spec_bytes(), max_ticks) == spec_run_loop(
                game@,
                now,
                interval,
                max_ticks - ticks,
            ),
            game@.has_lost == game.has_lost,
            game@.score == game.score,
        decreases max_ticks - ticks,
    {
        now = match now.checked_add(interval) {
            Some(t) => t,
            None => {
                proof {
                    assert(spec_run_loop(game@, now, interval, max_ticks - ticks) is None);
                }
                return Err(TrainError::ClockOverflow);
            },
        };
        let ghost pre = game@;
        let ghost now_pre = (now - interval) as u64;
        match game.update(now) {
            Ok(()) => {},
            Err(e) => {
                proof {
                    assert(spec_game_update(pre, now) is None);
                    assert(spec_run_loop(pre, now_pre, interval, max_ticks - ticks) is None);
                }
                return Err(e);
            },
        }
        ticks = ticks + 1;
    }
    Ok(game.score)
}

} // verus!
