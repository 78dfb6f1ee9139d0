//! The kinematic state that every agent carries, and the rectangles that
//! are derived from it.

use crate::fixed::{
    add_fixed, isqrt, lemma_square_monotone, sat, sqrt_floor, sub_fixed, tdiv, SCALE,
};
use crate::random::Rng;
use crate::vectors::{disk_sample, Vector2, DISK_TRIES};
use vstd::prelude::*;

verus! {

/// The least mass a body can have: growing and shrinking stop here.
pub const MASS_FLOOR: i64 = 1;

/// An axis-aligned rectangle in whole pixels, given by its upper left corner.
#[derive(Clone, Copy, Debug, PartialEq, Eq, Structural)]
pub struct Rect {
    pub x: i32,
    pub y: i32,
    pub w: u32,
    pub h: u32,
}

/// Mass, position and velocity of an agent, all in thousandths, with the
/// unit vector of the velocity kept beside it.
#[derive(Clone, Copy, Debug, PartialEq, Eq, Structural)]
pub struct Body {
    pub mass: i64,
    pub position: Vector2,
    pub velocity: Vector2,
    pub velocity_norm: Vector2,
}

/// The mass `mass`, raised to the floor where it lies under it.
pub open spec fn floored_mass(mass: int) -> int {
    if mass < MASS_FLOOR {
        MASS_FLOOR as int
    } else {
        sat(mass)
    }
}

/// Side of the square that a body of mass `mass` takes up, in pixels: four
/// and a half times the square root of the mass, rounded down. That is the
/// root of 20.25 times the mass, and is taken as such, in one rounding.
pub open spec fn size_of(mass: int) -> int {
    if mass <= 0 {
        0
    } else {
        sqrt_floor(((mass * 81) / (4 * SCALE)) as nat) as int
    }
}

/// The whole pixel that the fixed-point coordinate `v` falls on.
pub open spec fn pixel(v: int) -> int {
    let p = tdiv(v, SCALE as int);
    if p > i32::MAX {
        i32::MAX as int
    } else if p < i32::MIN {
        i32::MIN as int
    } else {
        p
    }
}

/// The square of side `side` pixels whose centre is `centre`.
pub open spec fn square_round(centre: Vector2, side: int) -> Rect {
    let half = Vector2 { x: (side * (SCALE / 2)) as i64, y: (side * (SCALE / 2)) as i64 };
    let corner = centre.spec_sub(half);
    Rect {
        x: pixel(corner.x as int) as i32,
        y: pixel(corner.y as int) as i32,
        w: side as u32,
        h: side as u32,
    }
}

/// The whole pixel that a fixed-point coordinate falls on.
pub fn pixel_of(v: i64) -> (r: i32)
    ensures
        r == pixel(v as int),
{
    let p: i64 = if v < 0 { -((-(v as i128) / 1000) as i64) } else { v / 1000 };
    if p > 2147483647 {
        i32::MAX
    } else if p < -2147483648 {
        i32::MIN
    } else {
        p as i32
    }
}

/// The square of side `side` pixels whose centre is `centre`.
fn square(centre: Vector2, side: u32) -> (r: Rect)
    ensures
        r == square_round(centre, side as int),
{
    let half: i64 = (side as i64) * 500;
    let corner = centre.sub(Vector2::new(half, half));
    Rect { x: pixel_of(corner.x), y: pixel_of(corner.y), w: side, h: side }
}

impl Body {
    /// The cached unit vector is the one of the velocity, and the mass is
    /// not under its floor.
    pub open spec fn wf(self) -> bool {
        &&& self.velocity_norm == self.velocity.spec_norm()
        &&& self.mass >= MASS_FLOOR
    }

    /// The body with `mass_gained` more mass, as far as a mass can go.
    pub open spec fn spec_grow(self, mass_gained: int) -> Body {
        Body { mass: floored_mass(sat(self.mass + mass_gained)) as i64, ..self }
    }

    /// The body with `mass_loss` less mass, down to the floor at most.
    pub open spec fn spec_shrink(self, mass_loss: int) -> Body {
        Body { mass: floored_mass(sat(self.mass - mass_loss)) as i64, ..self }
    }

    /// The square that the body takes up on a screen shifted by `offset`:
    /// its centre is the body's position.
    pub open spec fn spec_rect(self, offset: Vector2) -> Rect {
        square_round(self.position.spec_add(offset), size_of(self.mass as int))
    }

    /// The zone in which the body meets others: half as wide as the body,
    /// and a quarter of the body's width ahead of its centre, in the
    /// direction it faces.
    pub open spec fn spec_collision_rect(self, offset: Vector2) -> Rect {
        let side = size_of(self.mass as int);
        let ahead = self.velocity_norm.spec_scale(side * (SCALE / 4));
        square_round(self.position.spec_add(ahead).spec_add(offset), side / 2)
    }

    /// Side of the square that a body of mass `mass` takes up, in pixels.
    pub fn get_size(mass: i64) -> (r: u32)
        ensures
            r == size_of(mass as int),
    {
        if mass <= 0 {
            return 0;
        }
        let side: u64 = isqrt(((mass as u128) * 81) / 4000);
        proof {
            if side >= 0x1_0000_0000 {
                lemma_square_monotone(0x1_0000_0000, side as nat);
            }
        }
        side as u32
    }

    /// A body of the given mass at `position`, moving in a random direction
    /// at a speed of at most one unit a tick.
    pub fn new(mass: i64, position: Vector2, rng: &mut Rng) -> (r: Self)
        ensures
            r.wf(),
            r.mass == floored_mass(mass as int),
            r.position == position,
            r.velocity == disk_sample(old(rng).state, SCALE as int, DISK_TRIES as nat).0,
            final(rng).state == disk_sample(old(rng).state, SCALE as int, DISK_TRIES as nat).1,
    {
        let vel = Vector2::random_in_radius(SCALE, rng);
        Self {
            mass: if mass < MASS_FLOOR { MASS_FLOOR } else { mass },
            position,
            velocity: vel,
            velocity_norm: vel.norm(),
        }
    }

    /// Adds `mass_gained` to the mass, which stays at or above its floor.
    pub fn grow(&mut self, mass_gained: i64)
        ensures
            *final(self) == old(self).spec_grow(mass_gained as int),
            old(self).wf() ==> final(self).wf(),
    {
        let mass: i64 = add_fixed(self.mass, mass_gained);
        self.mass = if mass < MASS_FLOOR { MASS_FLOOR } else { mass };
    }

    /// Takes `mass_loss` from the mass, which stays at or above its floor.
    pub fn shrink(&mut self, mass_loss: i64)
        ensures
            *final(self) == old(self).spec_shrink(mass_loss as int),
            old(self).wf() ==> final(self).wf(),
    {
        let mass: i64 = sub_fixed(self.mass, mass_loss);
        self.mass = if mass < MASS_FLOOR { MASS_FLOOR } else { mass };
    }

    /// The square that the body takes up on a screen shifted by `offset`.
    pub fn rect(&self, offset: Vector2) -> (r: Rect)
        ensures
            r == self.spec_rect(offset),
    {
        square(self.position.add(offset), Body::get_size(self.mass))
    }

    /// The zone ahead of the body in which it meets others, on a screen
    /// shifted by `offset`.
    pub fn collision_rect(&self, offset: Vector2) -> (r: Rect)
        ensures
            r == self.spec_collision_rect(offset),
    {
        let side: u32 = Body::get_size(self.mass);
        let ahead = self.velocity_norm.scale((side as i64) * 250);
        square(self.position.add(ahead).add(offset), side / 2)
    }
}

/// What an agent sees of a point: the squared distance to it where the
/// point is in sight, and a negative number where it is not.
pub trait Vision {
    /// What the agent sees of `target`.
    spec fn sight(&self, target: Vector2) -> int;

    /// The squared distance to `target` where the agent has it in sight, a
    /// negative number where it has not.
    fn in_sight(&self, target: Vector2) -> (r: i64)
        ensures
            r == self.sight(target),
    ;
}

/// Where an agent is and how it moves.
pub trait Position {
    /// Where the agent is.
    spec fn spec_pos(&self) -> Vector2;

    /// How the agent moves in one tick; zero for one that stays.
    spec fn spec_vel(&self) -> Vector2;

    /// Where the agent is.
    fn pos(&self) -> (r: Vector2)
        ensures
            r == self.spec_pos(),
    ;

    /// How the agent moves in one tick.
    fn vel(&self) -> (r: Vector2)
        ensures
            r == self.spec_vel(),
    ;
}

} // verus!
