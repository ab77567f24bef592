//! The decision model: sensor neurones grouped into webs bound to actions.
//!
//! A neurone is a fixed-size sensor rectangle with a firing condition and a
//! polarity; a web is an ordered list of neurones bound to one action.  All
//! random structure (creation and mutation) is drawn from a `TrainRng`, and
//! every function's result is pinned to a spec-level model of those draws,
//! so brains evolve reproducibly.

use vstd::prelude::*;
use crate::entity::Obstacle;
use crate::params::GameParameters;
use crate::params::HOLE_SAFE_MARGIN;
use crate::params::ParamsView;
use crate::rng::RngDraw;
use crate::rng::TrainRng;
use crate::rng::rng_range_val;
use crate::rng::rng_ratio_val;
use crate::utils::check_collision;
use crate::utils::isqrt;
use crate::utils::sat_add;
use crate::utils::sat_mul;
use crate::utils::spec_check_collision;
use crate::utils::spec_isqrt;
use crate::utils::spec_sat_add;
use crate::utils::spec_sat_mul;

verus! {

/// When a neurone fires: when its sensor is clear of every obstacle, or
/// when it overlaps at least one.
#[derive(Debug, Clone, Copy, PartialEq, Eq, Structural)]
pub enum NeuroneActivationCondition {
    Air,
    Obstacle,
}

/// What a firing neurone does to its web's action: asserts it, or vetoes it.
#[derive(Debug, Clone, Copy, PartialEq, Eq, Structural)]
pub enum NeuroneActivation {
    Activate,
    PreventActivate,
}

/// The action a neurone web is bound to.
#[derive(Debug, Clone, Copy, PartialEq, Eq, Structural)]
pub enum NeuroneWebAction {
    Jump,
    Bend,
    Unbend,
}

/// A sensor rectangle with its firing condition and polarity.
#[derive(Debug, Clone, Copy, PartialEq, Eq, Structural)]
pub struct Neurone {
    /// Bottom-left corner.
    pub x: i64,
    /// Bottom-left corner.
    pub y: i64,
    pub width: i64,
    pub height: i64,
    pub activation_condition: NeuroneActivationCondition,
    pub activation: NeuroneActivation,
}

/// Every obstacle in the sequence is well-formed.
pub open spec fn all_obstacles_wf(obstacles: Seq<Obstacle>) -> bool {
    forall|i: int| 0 <= i < obstacles.len() ==> (#[trigger] obstacles[i]).wf()
}

impl Neurone {
    /// The sensor's coordinates are small enough for the collision
    /// arithmetic, whatever the configuration.
    pub open spec fn coord_ok(self) -> bool {
        &&& -crate::utils::COORD_LIMIT <= self.x <= crate::utils::COORD_LIMIT
        &&& -crate::utils::COORD_LIMIT <= self.y <= crate::utils::COORD_LIMIT
        &&& 0 <= self.width <= crate::utils::COORD_LIMIT
        &&& 0 <= self.height <= crate::utils::COORD_LIMIT
    }

    /// The sensor sits on the field, above the ground-gap dead zone, with
    /// the configured sensor size.
    pub open spec fn wf(self, pv: ParamsView) -> bool {
        &&& 0 <= self.x <= pv.game_width - pv.neurone_width
        &&& pv.hole_height + HOLE_SAFE_MARGIN <= self.y <= pv.game_height - pv.neurone_height
        &&& self.width == pv.neurone_width
        &&& self.height == pv.neurone_height
    }

    /// Create a neurone at the given sensor position.
    pub fn new(
        params: &GameParameters,
        x: i64,
        y: i64,
        activation_condition: NeuroneActivationCondition,
        activation: NeuroneActivation,
    ) -> (r: Neurone)
        requires
            params@.wf(),
            0 <= x <= params@.game_width - params@.neurone_width,
            params@.hole_height + HOLE_SAFE_MARGIN <= y <= params@.game_height
                - params@.neurone_height,
        ensures
            r == (Neurone {
                x,
                y,
                width: params@.neurone_width,
                height: params@.neurone_height,
                activation_condition,
                activation,
            }),
            r.wf(params@),
    {
        Neurone {
            x,
            y,
            width: params.neurone_width,
            height: params.neurone_height,
            activation_condition,
            activation,
        }
    }

    /// The neurone built from four draws: x, y, condition, polarity.
    pub open spec fn spec_new_random(
        pv: ParamsView,
        origin: Seq<u8>,
        history: Seq<RngDraw>,
    ) -> (Neurone, Seq<RngDraw>) {
        let x_hi = (pv.game_width - pv.neurone_width) as u64;
        let x = rng_range_val(origin, history, 0, x_hi);
        let h1 = history.push((0int, 0int, x_hi as int));
        let y_lo = (pv.hole_height + HOLE_SAFE_MARGIN) as u64;
        let y_hi = (pv.game_height - pv.neurone_height) as u64;
        let y = rng_range_val(origin, h1, y_lo, y_hi);
        let h2 = h1.push((0int, y_lo as int, y_hi as int));
        let c = rng_range_val(origin, h2, 0, 2);
        let h3 = h2.push((0int, 0int, 2int));
        let a = rng_range_val(origin, h3, 0, 2);
        let h4 = h3.push((0int, 0int, 2int));
        (
            Neurone {
                x: x as i64,
                y: y as i64,
                width: pv.neurone_width,
                height: pv.neurone_height,
                activation_condition: if c == 0 {
                    NeuroneActivationCondition::Air
                } else {
                    NeuroneActivationCondition::Obstacle
                },
                activation: if a == 0 {
                    NeuroneActivation::Activate
                } else {
                    NeuroneActivation::PreventActivate
                },
            },
            h4,
        )
    }

    /// Create a neurone with a random on-field position, condition and
    /// polarity.
    pub fn new_random(params: &GameParameters, rng: &mut TrainRng) -> (r: Neurone)
        requires
            params@.wf(),
        ensures
            (r, final(rng).history()) == Neurone::spec_new_random(
                params@,
                old(rng).origin(),
                old(rng).history(),
            ),
            final(rng).origin() == old(rng).origin(),
            r.wf(params@),
            r.x < params@.game_width - params@.neurone_width,
            r.y < params@.game_height - params@.neurone_height,
    {
        let x = rng.gen_range_u64(0, (params.game_width - params.neurone_width) as u64);
        let y = rng.gen_range_u64(
            (params.hole_height + HOLE_SAFE_MARGIN) as u64,
            (params.game_height - params.neurone_height) as u64,
        );
        let activation_condition = if rng.gen_range_u64(0, 2) == 0 {
            NeuroneActivationCondition::Air
        } else {
            NeuroneActivationCondition::Obstacle
        };
        let activation = if rng.gen_range_u64(0, 2) == 0 {
            NeuroneActivation::Activate
        } else {
            NeuroneActivation::PreventActivate
        };
        Neurone {
            x: x as i64,
            y: y as i64,
            width: params.neurone_width,
            height: params.neurone_height,
            activation_condition,
            activation,
        }
    }

    /// The neurone after mutation: the position is redrawn within the
    /// mutation range (clamped to the field and the gap-safe zone), then the
    /// condition and the polarity each re-roll with the configured chance.
    pub open spec fn spec_mutate(
        self,
        pv: ParamsView,
        origin: Seq<u8>,
        history: Seq<RngDraw>,
    ) -> (Neurone, Seq<RngDraw>) {
        let min_x = vstd::math::max(self.x - pv.neurone_x_mutation_range, 0) as u64;
        let max_x = vstd::math::min(
            self.x + pv.neurone_x_mutation_range,
            pv.game_width - pv.neurone_width,
        ) as u64;
        let x = rng_range_val(origin, history, min_x, max_x);
        let h1 = history.push((0int, min_x as int, max_x as int));
        let min_y = vstd::math::max(
            self.y - pv.neurone_y_mutation_range,
            pv.hole_height + HOLE_SAFE_MARGIN,
        ) as u64;
        let max_y = vstd::math::min(
            self.y + pv.neurone_y_mutation_range,
            pv.game_height - pv.neurone_height,
        ) as u64;
        let y = rng_range_val(origin, h1, min_y, max_y);
        let h2 = h1.push((0int, min_y as int, max_y as int));
        let flip_c = rng_ratio_val(origin, h2, pv.neurone_change_action_mutation_rate, 1000);
        let h3 = h2.push((1int, pv.neurone_change_action_mutation_rate as int, 1000int));
        let (cond, h4): (NeuroneActivationCondition, Seq<RngDraw>) = if flip_c {
            (
                if rng_range_val(origin, h3, 0, 2) == 0 {
                    NeuroneActivationCondition::Air
                } else {
                    NeuroneActivationCondition::Obstacle
                },
                h3.push((0int, 0int, 2int)),
            )
        } else {
            (self.activation_condition, h3)
        };
        let flip_a = rng_ratio_val(origin, h4, pv.neurone_change_action_mutation_rate, 1000);
        let h5 = h4.push((1int, pv.neurone_change_action_mutation_rate as int, 1000int));
        let (act, h6): (NeuroneActivation, Seq<RngDraw>) = if flip_a {
            (
                if rng_range_val(origin, h5, 0, 2) == 0 {
                    NeuroneActivation::Activate
                } else {
                    NeuroneActivation::PreventActivate
                },
                h5.push((0int, 0int, 2int)),
            )
        } else {
            (self.activation, h5)
        };
        (
            Neurone {
                x: x as i64,
                y: y as i64,
                activation_condition: cond,
                activation: act,
                ..self
            },
            h6,
        )
    }

    /// Mutate this neurone in place.
    pub fn mutate(&mut self, params: &GameParameters, rng: &mut TrainRng)
        requires
            params@.wf(),
            old(self).wf(params@),
        ensures
            (*final(self), final(rng).history()) == old(self).spec_mutate(
                params@,
                old(rng).origin(),
                old(rng).history(),
            ),
            final(rng).origin() == old(rng).origin(),
            final(self).wf(params@),
            vstd::math::max(old(self).x - params@.neurone_x_mutation_range, 0) <= final(self).x
                < vstd::math::min(
                old(self).x + params@.neurone_x_mutation_range,
                params@.game_width - params@.neurone_width,
            ),
            vstd::math::max(
                old(self).y - params@.neurone_y_mutation_range,
                params@.hole_height + HOLE_SAFE_MARGIN,
            ) <= final(self).y < vstd::math::min(
                old(self).y + params@.neurone_y_mutation_range,
                params@.game_height - params@.neurone_height,
            ),
    {
        let min_x: i64 = if self.x - params.neurone_x_mutation_range > 0 {
            self.x - params.neurone_x_mutation_range
        } else {
            0
        };
        let max_x: i64 = if self.x + params.neurone_x_mutation_range
            < params.game_width - params.neurone_width {
            self.x + params.neurone_x_mutation_range
        } else {
            params.game_width - params.neurone_width
        };
        self.x = rng.gen_range_u64(min_x as u64, max_x as u64) as i64;

        let min_y: i64 = if self.y - params.neurone_y_mutation_range > params.hole_height
            + HOLE_SAFE_MARGIN {
            self.y - params.neurone_y_mutation_range
        } else {
            params.hole_height + HOLE_SAFE_MARGIN
        };
        let max_y: i64 = if self.y + params.neurone_y_mutation_range
            < params.game_height - params.neurone_height {
            self.y + params.neurone_y_mutation_range
        } else {
            params.game_height - params.neurone_height
        };
        self.y = rng.gen_range_u64(min_y as u64, max_y as u64) as i64;

        if rng.gen_ratio(params.neurone_change_action_mutation_rate, 1000) {
            self.activation_condition = if rng.gen_range_u64(0, 2) == 0 {
                NeuroneActivationCondition::Air
            } else {
                NeuroneActivationCondition::Obstacle
            };
        }
        if rng.gen_ratio(params.neurone_change_action_mutation_rate, 1000) {
            self.activation = if rng.gen_range_u64(0, 2) == 0 {
                NeuroneActivation::Activate
            } else {
                NeuroneActivation::PreventActivate
            };
        }
    }

    /// The sensor overlaps at least one obstacle.
    pub open spec fn spec_has_collision(self, obstacles: Seq<Obstacle>) -> bool {
        exists|i: int|
            0 <= i < obstacles.len() && spec_check_collision(
                self.x as int,
                self.y as int,
                self.width as int,
                self.height as int,
                (#[trigger] obstacles[i]).x as int,
                obstacles[i].y as int,
                obstacles[i].width as int,
                obstacles[i].height as int,
            )
    }

    /// The polarity this neurone contributes: its own polarity when its
    /// condition is met (overlap for obstacle-fired neurones, no overlap at
    /// all for air-fired ones), nothing otherwise.
    pub open spec fn spec_get_activation(self, obstacles: Seq<Obstacle>) -> Option<
        NeuroneActivation,
    > {
        if self.activation_condition == NeuroneActivationCondition::Obstacle {
            if self.spec_has_collision(obstacles) {
                Some(self.activation)
            } else {
                None
            }
        } else {
            if self.spec_has_collision(obstacles) {
                None
            } else {
                Some(self.activation)
            }
        }
    }

    /// The polarity this neurone contributes against the given obstacles.
    pub fn get_activation(&self, obstacles: &Vec<Obstacle>) -> (r: Option<NeuroneActivation>)
        requires
            self.coord_ok(),
            all_obstacles_wf(obstacles@),
        ensures
            r == self.spec_get_activation(obstacles@),
    {
        let mut i: usize = 0;
        while i < obstacles.len()
            invariant
                all_obstacles_wf(obstacles@),
                self.coord_ok(),
                i <= obstacles@.len(),
                forall|j: int|
                    0 <= j < i ==> !spec_check_collision(
                        self.x as int,
                        self.y as int,
                        self.width as int,
                        self.height as int,
                        (#[trigger] obstacles@[j]).x as int,
                        obstacles@[j].y as int,
                        obstacles@[j].width as int,
                        obstacles@[j].height as int,
                    ),
            decreases obstacles@.len() - i,
        {
            let o = &obstacles[i];
            if check_collision(self.x, self.y, self.width, self.height, o.x, o.y, o.width, o.height)
            {
                // the sensor overlaps this obstacle, so the condition is
                // settled either way
                if self.activation_condition == NeuroneActivationCondition::Obstacle {
                    return Some(self.activation);
                } else {
                    return None;
                }
            }
            i = i + 1;
        }
        if self.activation_condition == NeuroneActivationCondition::Air {
            Some(self.activation)
        } else {
            None
        }
    }

    /// The energy of a neurone: the distance from its sensor centre to the
    /// dinosaur's resting centre, scaled and offset by the configured costs
    /// (saturating).
    pub open spec fn spec_energy(self, pv: ParamsView) -> u64 {
        let dino_cx = pv.dinausor_x + pv.dinausor_width / 2;
        let dino_cy = pv.dinausor_height / 2;
        let n_cx = self.x + pv.neurone_width / 2;
        let n_cy = self.y + pv.neurone_height / 2;
        let dx = dino_cx - n_cx;
        let dy = dino_cy - n_cy;
        let dist = spec_isqrt((dx * dx + dy * dy) as nat);
        spec_sat_add(spec_sat_mul(dist as u64, pv.neuron_cost_mult), pv.neuron_cost_flat)
    }

    /// The energy of this neurone under the given configuration.
    pub fn get_energy(&self, params: &GameParameters) -> (r: u64)
        requires
            params@.wf(),
            self.wf(params@),
        ensures
            r == self.spec_energy(params@),
    {
        let dino_cx: i64 = params.dinausor_x + params.dinausor_width / 2;
        let dino_cy: i64 = params.dinausor_height / 2;
        let n_cx: i64 = self.x + params.neurone_width / 2;
        let n_cy: i64 = self.y + params.neurone_height / 2;
        let dx: i64 = dino_cx - n_cx;
        let dy: i64 = dino_cy - n_cy;
        proof {
            assert(0 <= dx as int * dx as int <= 9_000_000_000_000_000_000int) by (nonlinear_arith)
                requires
                    -3_000_000_000 <= dx as int <= 3_000_000_000,
            ;
            assert(0 <= dy as int * dy as int <= 9_000_000_000_000_000_000int) by (nonlinear_arith)
                requires
                    -3_000_000_000 <= dy as int <= 3_000_000_000,
            ;
        }
        let sq: u64 = ((dx as i128 * dx as i128) + (dy as i128 * dy as i128)) as u64;
        let dist = isqrt(sq);
        sat_add(sat_mul(dist, params.neuron_cost_mult), params.neuron_cost_flat)
    }
}

// --------------------------------------------------------------------------
// Neurone webs
// --------------------------------------------------------------------------

/// An ordered group of neurones bound to one action.
#[derive(Debug)]
pub struct NeuroneWeb {
    pub neurones: Vec<Neurone>,
    pub action: NeuroneWebAction,
}

/// The mathematical image of a neurone web.
#[verifier::ext_equal]
pub ghost struct WebView {
    pub neurones: Seq<Neurone>,
    pub action: NeuroneWebAction,
}

impl View for NeuroneWeb {
    type V = WebView;

    open spec fn view(&self) -> WebView {
        WebView { neurones: self.neurones@, action: self.action }
    }
}

impl WebView {
    /// Every neurone of the web is well-formed.
    pub open spec fn wf(self, pv: ParamsView) -> bool {
        forall|i: int| 0 <= i < self.neurones.len() ==> (#[trigger] self.neurones[i]).wf(pv)
    }

    /// Every neurone's coordinates are small enough for the collision
    /// arithmetic.
    pub open spec fn coord_ok(self) -> bool {
        forall|i: int| 0 <= i < self.neurones.len() ==> (#[trigger] self.neurones[i]).coord_ok()
    }

    /// Some neurone vetoes its web's action against these obstacles.
    pub open spec fn has_veto(self, obstacles: Seq<Obstacle>) -> bool {
        exists|i: int|
            0 <= i < self.neurones.len() && (#[trigger] self.neurones[i]).spec_get_activation(
                obstacles,
            ) == Some(NeuroneActivation::PreventActivate)
    }

    /// Some neurone asserts its web's action against these obstacles.
    pub open spec fn has_assert(self, obstacles: Seq<Obstacle>) -> bool {
        exists|i: int|
            0 <= i < self.neurones.len() && (#[trigger] self.neurones[i]).spec_get_activation(
                obstacles,
            ) == Some(NeuroneActivation::Activate)
    }

    /// The web is activated when no neurone vetoes and at least one asserts.
    /// A veto overrides every assertion, before or after it.
    pub open spec fn spec_is_activated(self, obstacles: Seq<Obstacle>) -> bool {
        !self.has_veto(obstacles) && self.has_assert(obstacles)
    }

    /// The web after mutation: a removal-or-mutation pass over its
    /// neurones, a chance to append a fresh neurone, and a chance to
    /// re-roll the bound action.
    pub open spec fn spec_mutate(
        self,
        pv: ParamsView,
        origin: Seq<u8>,
        history: Seq<RngDraw>,
    ) -> (WebView, Seq<RngDraw>)
        recommends
            self.wf(pv),
    {
        let (kept, h1) = spec_mutate_neurones(pv, origin, self.neurones, 0, history, Seq::empty());
        let flip_add = rng_ratio_val(origin, h1, pv.neurone_web_add_mutation_rate, 1000);
        let h2 = h1.push((1int, pv.neurone_web_add_mutation_rate as int, 1000int));
        let (with_added, h3): (Seq<Neurone>, Seq<RngDraw>) = if flip_add {
            let (n, h) = Neurone::spec_new_random(pv, origin, h2);
            (kept.push(n), h)
        } else {
            (kept, h2)
        };
        let flip_action = rng_ratio_val(origin, h3, pv.neurone_web_change_action_mutation_rate, 1000);
        let h4 = h3.push((1int, pv.neurone_web_change_action_mutation_rate as int, 1000int));
        let (action, h5): (NeuroneWebAction, Seq<RngDraw>) = if flip_action {
            let idx = rng_range_val(origin, h4, 0, pv.commands.len() as u64);
            (pv.commands[idx as int], h4.push((0int, 0int, pv.commands.len() as int)))
        } else {
            (self.action, h4)
        };
        (WebView { neurones: with_added, action }, h5)
    }

    /// The energy of a web: the saturating sum of its neurones' energies,
    /// scaled and offset by the web costs.
    pub open spec fn spec_energy(self, pv: ParamsView) -> u64 {
        let total = spec_energy_sum(pv, self.neurones, 0, 0);
        spec_sat_add(spec_sat_mul(total, pv.neuron_web_cost_mult), pv.neuron_web_cost_flat)
    }
}

/// The neurones built by `count` random draws, appended to `acc`.
pub open spec fn spec_random_neurones(
    pv: ParamsView,
    origin: Seq<u8>,
    history: Seq<RngDraw>,
    count: int,
    acc: Seq<Neurone>,
) -> (Seq<Neurone>, Seq<RngDraw>)
    decreases count,
{
    if count <= 0 {
        (acc, history)
    } else {
        let (n, h1) = Neurone::spec_new_random(pv, origin, history);
        spec_random_neurones(pv, origin, h1, count - 1, acc.push(n))
    }
}

/// The neurones left after one mutation pass from index `i` on: each is
/// dropped with the removal chance, otherwise mutated and kept, in order.
pub open spec fn spec_mutate_neurones(
    pv: ParamsView,
    origin: Seq<u8>,
    neurones: Seq<Neurone>,
    i: int,
    history: Seq<RngDraw>,
    acc: Seq<Neurone>,
) -> (Seq<Neurone>, Seq<RngDraw>)
    decreases neurones.len() - i,
{
    if i < 0 || i >= neurones.len() {
        (acc, history)
    } else {
        let flip = rng_ratio_val(origin, history, pv.neurone_remove_mutation_rate, 1000);
        let h1 = history.push((1int, pv.neurone_remove_mutation_rate as int, 1000int));
        if flip {
            spec_mutate_neurones(pv, origin, neurones, i + 1, h1, acc)
        } else {
            let (n2, h2) = neurones[i].spec_mutate(pv, origin, h1);
            spec_mutate_neurones(pv, origin, neurones, i + 1, h2, acc.push(n2))
        }
    }
}

impl NeuroneWeb {
    /// The web built from one size draw, that many neurone draws, and one
    /// action pick from the configured action set.
    pub open spec fn spec_new_random(
        pv: ParamsView,
        origin: Seq<u8>,
        history: Seq<RngDraw>,
    ) -> (WebView, Seq<RngDraw>) {
        let lo = pv.neurone_web_creation_nb_neurones_min as u64;
        let hi = pv.neurone_web_creation_nb_neurones_max as u64;
        let nb = rng_range_val(origin, history, lo, hi);
        let h1 = history.push((0int, lo as int, hi as int));
        let (neurones, h2) = spec_random_neurones(pv, origin, h1, nb as int, Seq::empty());
        let idx = rng_range_val(origin, h2, 0, pv.commands.len() as u64);
        let h3 = h2.push((0int, 0int, pv.commands.len() as int));
        (WebView { neurones, action: pv.commands[idx as int] }, h3)
    }

    /// Create a completely random web of neurones.
    pub fn new_random(params: &GameParameters, rng: &mut TrainRng) -> (r: NeuroneWeb)
        requires
            params@.wf(),
        ensures
            (r@, final(rng).history()) == NeuroneWeb::spec_new_random(
                params@,
                old(rng).origin(),
                old(rng).history(),
            ),
            final(rng).origin() == old(rng).origin(),
            r@.wf(params@),
            params@.neurone_web_creation_nb_neurones_min <= r@.neurones.len()
                < params@.neurone_web_creation_nb_neurones_max,
            params@.commands.contains(r@.action),
    {
        let nb = rng.gen_range_u64(
            params.neurone_web_creation_nb_neurones_min as u64,
            params.neurone_web_creation_nb_neurones_max as u64,
        );
        let ghost h1 = rng.history();
        let mut neurones: Vec<Neurone> = Vec::new();
        let mut k: u64 = 0;
        while k < nb
            invariant
                params@.wf(),
                k <= nb,
                neurones@.len() == k,
                rng.origin() == old(rng).origin(),
                forall|j: int| 0 <= j < neurones@.len() ==> (#[trigger] neurones@[j]).wf(params@),
                spec_random_neurones(params@, rng.origin(), h1, nb as int, Seq::empty())
                    == spec_random_neurones(
                    params@,
                    rng.origin(),
                    rng.history(),
                    nb - k,
                    neurones@,
                ),
            decreases nb - k,
        {
            let n = Neurone::new_random(params, rng);
            neurones.push(n);
            k = k + 1;
        }
        let action_i = rng.gen_range_u64(0, params.commands.len() as u64);
        let action = params.commands[action_i as usize];
        proof {
            assert(params@.commands[action_i as int] == action);
        }
        NeuroneWeb { neurones, action }
    }

    /// Mutate this web in place.
    pub fn mutate(&mut self, params: &GameParameters, rng: &mut TrainRng)
        requires
            params@.wf(),
            old(self)@.wf(params@),
        ensures
            (final(self)@, final(rng).history()) == old(self)@.spec_mutate(
                params@,
                old(rng).origin(),
                old(rng).history(),
            ),
            final(rng).origin() == old(rng).origin(),
            final(self)@.wf(params@),
    {
        let ghost orig_web = *self;
        let ghost h0 = rng.history();
        proof {
            assert forall|j: int|
                0 <= j < self.neurones@.len() implies (#[trigger] self.neurones@[j]).wf(
                params@,
            ) by {
                assert(old(self)@.neurones[j] == self.neurones@[j]);
            }
        }
        let mut kept: Vec<Neurone> = Vec::new();
        let mut i: usize = 0;
        while i < self.neurones.len()
            invariant
                params@.wf(),
                i <= self.neurones@.len(),
                self.neurones@ == orig_web.neurones@,
                self.action == orig_web.action,
                forall|j: int|
                    0 <= j < self.neurones@.len() ==> (#[trigger] self.neurones@[j]).wf(params@),
                forall|j: int| 0 <= j < kept@.len() ==> (#[trigger] kept@[j]).wf(params@),
                rng.origin() == old(rng).origin(),
                spec_mutate_neurones(
                    params@,
                    rng.origin(),
                    orig_web.neurones@,
                    0,
                    h0,
                    Seq::empty(),
                ) == spec_mutate_neurones(
                    params@,
                    rng.origin(),
                    orig_web.neurones@,
                    i as int,
                    rng.history(),
                    kept@,
                ),
            decreases self.neurones@.len() - i,
        {
            if rng.gen_ratio(params.neurone_remove_mutation_rate, 1000) {
                // marked for removal: drop it
            } else {
                let mut n = self.neurones[i];
                n.mutate(params, rng);
                kept.push(n);
            }
            i = i + 1;
        }
        self.neurones = kept;
        if rng.gen_ratio(params.neurone_web_add_mutation_rate, 1000) {
            let n = Neurone::new_random(params, rng);
            self.neurones.push(n);
        }
        if rng.gen_ratio(params.neurone_web_change_action_mutation_rate, 1000) {
            let commands_i = rng.gen_range_u64(0, params.commands.len() as u64);
            self.action = params.commands[commands_i as usize];
        }
    }

    /// Whether this web requests its action against the given obstacles.
    pub fn is_activated(&self, obstacles: &Vec<Obstacle>) -> (r: bool)
        requires
            self@.coord_ok(),
            all_obstacles_wf(obstacles@),
        ensures
            r == self@.spec_is_activated(obstacles@),
    {
        let mut active = false;
        let mut i: usize = 0;
        while i < self.neurones.len()
            invariant
                self@.coord_ok(),
                all_obstacles_wf(obstacles@),
                i <= self.neurones@.len(),
                forall|k: int|
                    0 <= k < i ==> (#[trigger] self.neurones@[k]).spec_get_activation(obstacles@)
                        != Some(NeuroneActivation::PreventActivate),
                active == (exists|k: int|
                    0 <= k < i && (#[trigger] self.neurones@[k]).spec_get_activation(obstacles@)
                        == Some(NeuroneActivation::Activate)),
            decreases self.neurones@.len() - i,
        {
            proof {
                assert(self@.neurones[i as int].coord_ok());
            }
            let activation = self.neurones[i].get_activation(obstacles);
            match activation {
                Some(NeuroneActivation::PreventActivate) => {
                    return false;
                },
                Some(NeuroneActivation::Activate) => {
                    active = true;
                },
                None => {},
            }
            i = i + 1;
        }
        active
    }

    /// The energy of this web under the given configuration.
    pub fn get_energy(&self, params: &GameParameters) -> (r: u64)
        requires
            params@.wf(),
            self@.wf(params@),
        ensures
            r == self@.spec_energy(params@),
    {
        proof {
            assert forall|j: int|
                0 <= j < self.neurones@.len() implies (#[trigger] self.neurones@[j]).wf(
                params@,
            ) by {
                assert(self@.neurones[j] == self.neurones@[j]);
            }
        }
        let mut energy: u64 = 0;
        let mut i: usize = 0;
        while i < self.neurones.len()
            invariant
                params@.wf(),
                forall|j: int|
                    0 <= j < self.neurones@.len() ==> (#[trigger] self.neurones@[j]).wf(params@),
                i <= self.neurones@.len(),
                spec_energy_sum(params@, self.neurones@, 0, 0) == spec_energy_sum(
                    params@,
                    self.neurones@,
                    i as int,
                    energy,
                ),
            decreases self.neurones@.len() - i,
        {
            energy = sat_add(energy, self.neurones[i].get_energy(params));
            i = i + 1;
        }
        sat_add(sat_mul(energy, params.neuron_web_cost_mult), params.neuron_web_cost_flat)
    }
}

/// The saturating sum of the neurones' energies from index `i` on, added to
/// `acc`.
pub open spec fn spec_energy_sum(pv: ParamsView, neurones: Seq<Neurone>, i: int, acc: u64) -> u64
    decreases neurones.len() - i,
{
    if i < 0 || i >= neurones.len() {
        acc
    } else {
        spec_energy_sum(pv, neurones, i + 1, spec_sat_add(acc, neurones[i].spec_energy(pv)))
    }
}

/// Whether two neurone lists hold the same neurones in the same order.
pub fn neurones_eq(a: &Vec<Neurone>, b: &Vec<Neurone>) -> (r: bool)
    ensures
        r == (a@ == b@),
{
    if a.len() != b.len() {
        proof {
            assert(a@.len() != b@.len());
        }
        return false;
    }
    let mut i: usize = 0;
    while i < a.len()
        invariant
            a@.len() == b@.len(),
            i <= a@.len(),
            forall|j: int| 0 <= j < i ==> a@[j] == b@[j],
        decreases a@.len() - i,
    {
        if a[i] != b[i] {
            return false;
        }
        i = i + 1;
    }
    proof {
        assert(a@ =~= b@);
    }
    true
}

impl PartialEq for NeuroneWeb {
    /// Two webs are equal when they hold the same neurones in the same
    /// order, bound to the same action.
    fn eq(&self, other: &NeuroneWeb) -> (r: bool) {
        let r = self.action == other.action && neurones_eq(&self.neurones, &other.neurones);
        proof {
            if r {
                assert(self@ =~= other@);
            }
        }
        r
    }
}

impl vstd::std_specs::cmp::PartialEqSpecImpl for NeuroneWeb {
    open spec fn obeys_eq_spec() -> bool {
        true
    }

    open spec fn eq_spec(&self, other: &NeuroneWeb) -> bool {
        self@ == other@
    }
}

} // verus!
