//! Game entities: the dinosaur and the obstacles.
//!
//! Positions and sizes are in thousandths of a pixel, times in microseconds,
//! velocities in thousandths of a pixel per second.  All motion is clamped
//! into `[-COORD_LIMIT, COORD_LIMIT]`, far outside the playing field, so the
//! fixed-point arithmetic can never overflow.

use vstd::prelude::*;
use crate::params::GameParameters;
use crate::params::ParamsView;
use crate::params::DIM_LIMIT;
use crate::utils::COORD_LIMIT;

verus! {

/// Velocities stay within this magnitude (thousandths of a pixel per
/// second).
pub const SPEED_LIMIT: i64 = 1_000_000_000;

/// Microseconds in one second.
pub const MICROS_PER_SEC: u64 = 1_000_000;

/// How far to the right of the requested position a new obstacle spawns
/// (thousandths of a pixel).
pub const SPAWN_X_OFFSET: i64 = 400_000;

/// A coordinate clamped into `[-COORD_LIMIT, COORD_LIMIT]`.
pub open spec fn spec_clamp_coord(v: int) -> int {
    if v < -(COORD_LIMIT as int) {
        -(COORD_LIMIT as int)
    } else if v > COORD_LIMIT as int {
        COORD_LIMIT as int
    } else {
        v
    }
}

/// A velocity clamped into `[-SPEED_LIMIT, SPEED_LIMIT]`.
pub open spec fn spec_clamp_speed(v: int) -> int {
    if v < -(SPEED_LIMIT as int) {
        -(SPEED_LIMIT as int)
    } else if v > SPEED_LIMIT as int {
        SPEED_LIMIT as int
    } else {
        v
    }
}

/// The displacement of a body moving at `speed` for `dt_us` microseconds,
/// rounded towards zero.
pub open spec fn spec_travel(speed: int, dt_us: int) -> int {
    if speed >= 0 {
        (speed * dt_us) / (MICROS_PER_SEC as int)
    } else {
        -(((-speed) * dt_us) / (MICROS_PER_SEC as int))
    }
}

/// A position after moving at `speed` for `dt_us` microseconds, clamped
/// into the coordinate range.
pub open spec fn spec_move_coord(pos: int, speed: int, dt_us: int) -> int {
    spec_clamp_coord(pos + spec_travel(speed, dt_us))
}

/// The exact magnitude `(speed_mag * dt_us) / 1_000_000`.
fn travel_mag(speed_mag: u64, dt_us: u64) -> (r: u128)
    requires
        speed_mag <= SPEED_LIMIT as u64,
    ensures
        r == (speed_mag * dt_us) / (MICROS_PER_SEC as int),
{
    proof {
        vstd::arithmetic::mul::lemma_mul_upper_bound(
            speed_mag as int,
            SPEED_LIMIT as int,
            dt_us as int,
            u64::MAX as int,
        );
        assert((SPEED_LIMIT as int) * (u64::MAX as int)
            < 0x1_0000_0000_0000_0000_0000_0000_0000_0000int) by (nonlinear_arith);
    }
    ((speed_mag as u128) * (dt_us as u128)) / (MICROS_PER_SEC as u128)
}

/// Move `pos` at `speed` for `dt_us` microseconds, clamping into the
/// coordinate range.
pub fn move_coord(pos: i64, speed: i64, dt_us: u64) -> (r: i64)
    requires
        -COORD_LIMIT <= pos <= COORD_LIMIT,
        -SPEED_LIMIT <= speed <= SPEED_LIMIT,
    ensures
        r as int == spec_move_coord(pos as int, speed as int, dt_us as int),
        -COORD_LIMIT <= r <= COORD_LIMIT,
{
    let mag_u: u64 = if speed >= 0 {
        speed as u64
    } else {
        (-speed) as u64
    };
    let mag = travel_mag(mag_u, dt_us);
    let capped: i64 = if mag > (4 * COORD_LIMIT) as u128 {
        4 * COORD_LIMIT
    } else {
        mag as i64
    };
    let moved: i64 = if speed >= 0 {
        pos + capped
    } else {
        pos - capped
    };
    if moved < -COORD_LIMIT {
        -COORD_LIMIT
    } else if moved > COORD_LIMIT {
        COORD_LIMIT
    } else {
        moved
    }
}

/// Drop `velocity` by gravity over `dt_us` microseconds, clamping into the
/// velocity range.
pub fn drop_speed(velocity: i64, gravity: u64, dt_us: u64) -> (r: i64)
    requires
        -SPEED_LIMIT <= velocity <= SPEED_LIMIT,
        gravity <= SPEED_LIMIT as u64,
    ensures
        r as int == spec_clamp_speed(
            velocity - (gravity * dt_us) / (MICROS_PER_SEC as int),
        ),
        -SPEED_LIMIT <= r <= SPEED_LIMIT,
{
    let fall = travel_mag(gravity, dt_us);
    let capped: i64 = if fall > (4 * SPEED_LIMIT) as u128 {
        4 * SPEED_LIMIT
    } else {
        fall as i64
    };
    let v = velocity - capped;
    if v < -SPEED_LIMIT {
        -SPEED_LIMIT
    } else if v > SPEED_LIMIT {
        SPEED_LIMIT
    } else {
        v
    }
}

// --------------------------------------------------------------------------
// Obstacles
// --------------------------------------------------------------------------

/// The concrete kind of one obstacle on the field.
#[derive(Debug, Clone, Copy, PartialEq, Eq, Structural)]
pub enum ObstacleEntityType {
    Cactus,
    Rock,
    PterodactyleWithRock,
    Hole,
    Pterodactyle,
}

/// A spawn archetype: what one spawn event puts on the field (some spawn
/// two obstacles at once).
#[derive(Debug, Clone, Copy, PartialEq, Eq, Structural)]
pub enum ObstacleGenerateType {
    Cactus,
    Rock,
    RockAndPterodactyle,
    RockAndHole,
    Pterodactyle,
}

/// One obstacle, moving leftwards over the field.
#[derive(Debug, Clone, Copy, PartialEq, Eq, Structural)]
pub struct Obstacle {
    /// Bottom-left corner.
    pub x: i64,
    /// Bottom-left corner.
    pub y: i64,
    pub width: i64,
    pub height: i64,
    /// Leftward speed.
    pub velocity: i64,
    pub type_: ObstacleEntityType,
    pub last_time_update: u64,
}

impl Obstacle {
    /// The fields stay inside the ranges the fixed-point arithmetic needs.
    pub open spec fn wf(self) -> bool {
        &&& -COORD_LIMIT <= self.x <= COORD_LIMIT
        &&& 0 <= self.y <= COORD_LIMIT
        &&& 0 <= self.width <= DIM_LIMIT
        &&& 0 <= self.height <= DIM_LIMIT
        &&& 0 <= self.velocity <= SPEED_LIMIT
    }

    /// The obstacle `new` builds: geometry by archetype, spawned
    /// `SPAWN_X_OFFSET` right of the requested position.
    pub open spec fn spec_new(
        params: ParamsView,
        x: int,
        velocity: i64,
        last_time_update: u64,
        type_: ObstacleEntityType,
    ) -> Obstacle {
        let sx = x + SPAWN_X_OFFSET;
        match type_ {
            ObstacleEntityType::Cactus => Obstacle {
                x: sx as i64,
                y: 0,
                width: params.cactus_width,
                height: params.cactus_height,
                velocity,
                type_,
                last_time_update,
            },
            ObstacleEntityType::Rock => Obstacle {
                x: sx as i64,
                y: 0,
                width: params.rock_width,
                height: params.rock_height,
                velocity,
                type_,
                last_time_update,
            },
            ObstacleEntityType::PterodactyleWithRock => Obstacle {
                x: (sx - params.pterodactyle_offset_with_rock - params.pterodactyle_width) as i64,
                y: params.pterodactyle_flying_height_with_rock,
                width: params.pterodactyle_width,
                height: params.pterodactyle_height,
                velocity,
                type_,
                last_time_update,
            },
            ObstacleEntityType::Hole => Obstacle {
                x: (sx - params.hole_width) as i64,
                y: 0,
                width: params.hole_width,
                height: params.hole_height,
                velocity,
                type_,
                last_time_update,
            },
            ObstacleEntityType::Pterodactyle => Obstacle {
                x: sx as i64,
                y: params.pterodactyle_flying_height_without_rock,
                width: params.pterodactyle_width,
                height: params.pterodactyle_height,
                velocity,
                type_,
                last_time_update,
            },
        }
    }

    /// Create an obstacle of the given kind at the spawn position.
    pub fn new(
        params: &GameParameters,
        x: i64,
        velocity: i64,
        last_time_update: u64,
        type_: ObstacleEntityType,
    ) -> (r: Obstacle)
        requires
            params@.wf(),
            -DIM_LIMIT <= x <= 3 * DIM_LIMIT,
            0 <= velocity <= SPEED_LIMIT,
        ensures
            r == Obstacle::spec_new(params@, x as int, velocity, last_time_update, type_),
            r.wf(),
    {
        let x = x + SPAWN_X_OFFSET;
        match type_ {
            ObstacleEntityType::Cactus => Obstacle {
                x,
                y: 0,
                width: params.cactus_width,
                height: params.cactus_height,
                velocity,
                type_,
                last_time_update,
            },
            ObstacleEntityType::Rock => Obstacle {
                x,
                y: 0,
                width: params.rock_width,
                height: params.rock_height,
                velocity,
                type_,
                last_time_update,
            },
            ObstacleEntityType::PterodactyleWithRock => Obstacle {
                x: x - params.pterodactyle_offset_with_rock - params.pterodactyle_width,
                y: params.pterodactyle_flying_height_with_rock,
                width: params.pterodactyle_width,
                height: params.pterodactyle_height,
                velocity,
                type_,
                last_time_update,
            },
            ObstacleEntityType::Hole => Obstacle {
                x: x - params.hole_width,
                y: 0,
                width: params.hole_width,
                height: params.hole_height,
                velocity,
                type_,
                last_time_update,
            },
            ObstacleEntityType::Pterodactyle => Obstacle {
                x,
                y: params.pterodactyle_flying_height_without_rock,
                width: params.pterodactyle_width,
                height: params.pterodactyle_height,
                velocity,
                type_,
                last_time_update,
            },
        }
    }

    /// The obstacle after `update`: frozen while `now` lies before its last
    /// update (a defence against clock regressions), otherwise moved left by
    /// its velocity over the elapsed time.
    pub open spec fn spec_update(self, now: u64) -> Obstacle {
        if now < self.last_time_update {
            self
        } else {
            Obstacle {
                x: spec_move_coord(
                    self.x as int,
                    -(self.velocity as int),
                    now - self.last_time_update,
                ) as i64,
                last_time_update: now,
                ..self
            }
        }
    }

    /// Advance the obstacle to time `now`.
    pub fn update(&mut self, now: u64)
        requires
            old(self).wf(),
        ensures
            *final(self) == old(self).spec_update(now),
            final(self).wf(),
    {
        if now < self.last_time_update {
            return;
        }
        let dt = now - self.last_time_update;
        self.x = move_coord(self.x, -self.velocity, dt);
        self.last_time_update = now;
    }
}

// --------------------------------------------------------------------------
// The dinosaur
// --------------------------------------------------------------------------

/// The player character.
#[derive(Debug, Clone, Copy, PartialEq, Eq, Structural)]
pub struct Dinosaur {
    /// Bottom-left corner.
    pub x: i64,
    /// Bottom-left corner; never below the ground at 0.
    pub y: i64,
    pub width: i64,
    pub height: i64,
    /// Vertical speed, upward positive.
    pub velocity: i64,
    pub last_time_update: u64,
    pub is_bending: bool,
}

impl Dinosaur {
    /// The fields stay inside the ranges the fixed-point arithmetic needs.
    pub open spec fn wf(self) -> bool {
        &&& 0 <= self.x <= COORD_LIMIT
        &&& 0 <= self.y <= COORD_LIMIT
        &&& 0 <= self.width <= DIM_LIMIT
        &&& 0 <= self.height <= DIM_LIMIT
        &&& -SPEED_LIMIT <= self.velocity <= SPEED_LIMIT
    }

    /// The dinosaur `new_dinosaur` builds: resting on the ground, upright.
    pub open spec fn spec_new(params: ParamsView, last_time_update: u64) -> Dinosaur {
        Dinosaur {
            x: params.dinausor_x,
            y: 0,
            width: params.dinausor_width,
            height: params.dinausor_height,
            velocity: 0,
            last_time_update,
            is_bending: false,
        }
    }

    /// Create the dinosaur at its start position.
    pub fn new_dinosaur(params: &GameParameters, last_time_update: u64) -> (r: Dinosaur)
        requires
            params@.wf(),
        ensures
            r == Dinosaur::spec_new(params@, last_time_update),
            r.wf(),
    {
        Dinosaur {
            x: params.dinausor_x,
            y: 0,
            width: params.dinausor_width,
            height: params.dinausor_height,
            velocity: 0,
            last_time_update,
            is_bending: false,
        }
    }

    /// The dinosaur after a jump attempt with take-off speed `velocity`:
    /// only a grounded, non-bending dinosaur that is not already moving up
    /// takes off.
    pub open spec fn spec_jump(self, velocity: i64) -> (bool, Dinosaur) {
        if self.y <= 0 && self.velocity <= 0 && !self.is_bending {
            (true, Dinosaur { velocity, ..self })
        } else {
            (false, self)
        }
    }

    /// Set the vertical speed if the dinosaur may take off now.
    fn intern_hump(&mut self, velocity: i64) -> (r: bool)
        requires
            old(self).wf(),
            0 <= velocity <= SPEED_LIMIT,
        ensures
            (r, *final(self)) == old(self).spec_jump(velocity),
            final(self).wf(),
    {
        if self.y <= 0 && self.velocity <= 0 && !self.is_bending {
            self.velocity = velocity;
            true
        } else {
            false
        }
    }

    /// Jump with the configured take-off speed; true when the jump started.
    pub fn jump(&mut self, params: &GameParameters) -> (r: bool)
        requires
            old(self).wf(),
            params@.wf(),
        ensures
            (r, *final(self)) == old(self).spec_jump(params.dinausor_jump_velocity),
            final(self).wf(),
    {
        self.intern_hump(params.dinausor_jump_velocity)
    }

    /// The dinosaur after a bend attempt: bending swaps width and height.
    pub open spec fn spec_bend(self) -> (bool, Dinosaur) {
        if self.is_bending {
            (false, self)
        } else {
            (true, Dinosaur { is_bending: true, width: self.height, height: self.width, ..self })
        }
    }

    /// Bend down; true when the dinosaur was not bending already.
    pub fn bend(&mut self) -> (r: bool)
        requires
            old(self).wf(),
        ensures
            (r, *final(self)) == old(self).spec_bend(),
            final(self).wf(),
    {
        if self.is_bending {
            false
        } else {
            self.is_bending = true;
            self.switch_width_height();
            true
        }
    }

    /// The dinosaur after an unbend attempt: the swap is undone.
    pub open spec fn spec_unbend(self) -> (bool, Dinosaur) {
        if !self.is_bending {
            (false, self)
        } else {
            (true, Dinosaur { is_bending: false, width: self.height, height: self.width, ..self })
        }
    }

    /// Stand back up; true when the dinosaur was bending.
    pub fn unbend(&mut self) -> (r: bool)
        requires
            old(self).wf(),
        ensures
            (r, *final(self)) == old(self).spec_unbend(),
            final(self).wf(),
    {
        if !self.is_bending {
            false
        } else {
            self.is_bending = false;
            self.switch_width_height();
            true
        }
    }

    /// Swap the dinosaur's width and height.
    fn switch_width_height(&mut self)
        ensures
            *final(self) == (Dinosaur {
                width: old(self).height,
                height: old(self).width,
                ..*old(self)
            }),
    {
        let buf = self.width;
        self.width = self.height;
        self.height = buf;
    }

    /// The dinosaur after `update`: its position integrates the vertical
    /// speed, the speed integrates gravity, and ground contact resets both.
    /// A `now` before the last update leaves no time elapsed.
    pub open spec fn spec_update(self, gravity: u64, now: u64) -> Dinosaur {
        let dt: int = if now >= self.last_time_update {
            now - self.last_time_update
        } else {
            0
        };
        let y2 = spec_move_coord(self.y as int, self.velocity as int, dt);
        let v2 = spec_clamp_speed(self.velocity - (gravity * dt) / (MICROS_PER_SEC as int));
        if y2 <= 0 {
            Dinosaur { y: 0, velocity: 0, last_time_update: now, ..self }
        } else {
            Dinosaur { y: y2 as i64, velocity: v2 as i64, last_time_update: now, ..self }
        }
    }

    /// Advance the dinosaur to time `now`, applying gravity.
    pub fn update(&mut self, params: &GameParameters, now: u64)
        requires
            old(self).wf(),
            params@.wf(),
        ensures
            *final(self) == old(self).spec_update(params.gravity, now),
            final(self).wf(),
    {
        let dt: u64 = if now >= self.last_time_update {
            now - self.last_time_update
        } else {
            0
        };
        let y2 = move_coord(self.y, self.velocity, dt);
        let v2 = drop_speed(self.velocity, params.gravity, dt);
        if y2 <= 0 {
            self.y = 0;
            self.velocity = 0;
        } else {
            self.y = y2;
            self.velocity = v2;
        }
        self.last_time_update = now;
    }
}

} // verus!
