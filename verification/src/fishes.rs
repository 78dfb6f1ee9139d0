//! The agents of the ecosystem: fish, which steer, and plants, which grow
//! and divide.

use crate::bodies::{floored_mass, size_of, Body, Position, Rect, Vision, MASS_FLOOR};
use crate::fixed::{
    abs_int, add_fixed, div_away_wide, fx_mul, lemma_adiv_bounds, lemma_adiv_monotone,
    lemma_adiv_sign, lemma_tdiv, lemma_tdiv_monotone, mul_div, mul_div_fixed, mul_fixed,
    ratio_away, sat, sub_fixed, tdiv, SCALE,
};
use crate::random::Rng;
use crate::vectors::{
    at_least_zero, disk_sample, lemma_div_keeps_direction, lemma_length_along_axis,
    lemma_longer_by_components, lemma_mag_along_axis, lemma_mag_keeps_side, lemma_rem_along_axis,
    lemma_rem_bounds_length, lemma_rem_keeps_side, same_side, Vector2, DISK_TRIES,
};
use vstd::prelude::*;

verus! {

/// The strongest steering force a fish can apply.
pub const MAX_FORCE: i64 = 10_000;

/// The health a fish starts with.
pub const FISH_HEALTH: u32 = 100;

/// What `in_sight` answers for a point that is not in sight.
pub const OUT_OF_SIGHT: i64 = -1000;

/// Radius of the disk from which each tick of wandering draws its change of
/// course.
pub const WANDER_JITTER: i64 = 5_000;

/// Length that the wander vector is given when wandering starts.
pub const WANDER_REACH: i64 = 10_000;

/// Distance under which an arriving fish slows down.
pub const ARRIVE_RADIUS: i64 = 100_000;

/// Part of the distance to its target by which a pursuer aims ahead.
pub const PURSUIT_LEAD: i64 = 100;

/// The last steering behaviour that a fish was asked for.
#[derive(Clone, Copy, Debug, PartialEq, Eq, Structural)]
pub enum FishBehaviour {
    Still,
    Wandering,
    Seeking,
    Arriving,
    Fleeing,
}

/// What one tick has gathered of a fish's neighbours.
#[derive(Clone, Copy, Debug, PartialEq, Eq, Structural)]
pub struct Flock {
    pub separation_vec: Vector2,
    pub separation_w: i64,
    pub cohesion_vec: Vector2,
    pub cohesion_w: i64,
    pub alignment_vec: Vector2,
    pub alignment_w: i64,
}

/// The push that a neighbour gives, seen from `neighbor_distance` away: along
/// the unit vector of the distance, and as strong as one over the squared
/// distance. Each component is rounded once, away from zero, so that the
/// push of a far neighbour is weak but never lost.
pub open spec fn repulsion(neighbor_distance: Vector2) -> Vector2 {
    let unit = neighbor_distance.spec_norm();
    let squared = neighbor_distance.norm_sq() as int;
    Vector2 {
        x: ratio_away(unit.x * 1_000_000, squared) as i64,
        y: ratio_away(unit.y * 1_000_000, squared) as i64,
    }
}

/// The push that a neighbour gives: see the spec function of this name.
pub fn repulsion_of(neighbor_distance: Vector2) -> (r: Vector2)
    ensures
        r == repulsion(neighbor_distance),
{
    let unit = neighbor_distance.norm();
    let squared: u128 = neighbor_distance.length_sqr_wide();
    Vector2::new(
        div_away_wide((unit.x as i128) * 1_000_000, squared),
        div_away_wide((unit.y as i128) * 1_000_000, squared),
    )
}

impl Flock {
    /// The accumulator with its three sums at zero and its weights kept.
    pub open spec fn spec_clear(self) -> Flock {
        Flock {
            separation_vec: Vector2::spec_zero(),
            cohesion_vec: Vector2::spec_zero(),
            alignment_vec: Vector2::spec_zero(),
            ..self
        }
    }

    /// The accumulator after a neighbour at `neighbor_position`, seen from
    /// `neighbor_distance` away and heading along `neighbor_velocity`: it is
    /// pushed away from the neighbour with the inverse square of the
    /// distance, and the neighbour's position and heading are summed up.
    pub open spec fn spec_add(
        self,
        neighbor_distance: Vector2,
        neighbor_position: Vector2,
        neighbor_velocity: Vector2,
    ) -> Flock {
        Flock {
            separation_vec: self.separation_vec.spec_add(repulsion(neighbor_distance)),
            cohesion_vec: self.cohesion_vec.spec_add(neighbor_position),
            alignment_vec: self.alignment_vec.spec_add(neighbor_velocity),
            ..self
        }
    }

    /// The steering force that the gathered neighbours ask for.
    pub open spec fn force(self) -> Vector2 {
        self.separation_vec.spec_norm().spec_scale(self.separation_w as int).spec_add(
            self.cohesion_vec.spec_norm().spec_scale(self.cohesion_w as int),
        ).spec_add(self.alignment_vec.spec_norm().spec_scale(self.alignment_w as int))
    }

    /// Sets the three sums back to zero; the weights stay.
    pub fn clear(&mut self)
        ensures
            *final(self) == old(self).spec_clear(),
    {
        let zero_vec = Vector2::new(0, 0);
        self.separation_vec = zero_vec;
        self.cohesion_vec = zero_vec;
        self.alignment_vec = zero_vec;
    }

    /// Takes one neighbour into account: see `spec_add`.
    pub fn add(
        &mut self,
        neighbor_distance: Vector2,
        neighbor_position: Vector2,
        neighbor_velocity: Vector2,
    )
        ensures
            *final(self) == old(self).spec_add(
                neighbor_distance,
                neighbor_position,
                neighbor_velocity,
            ),
    {
        self.separation_vec = self.separation_vec.add(repulsion_of(neighbor_distance));
        self.cohesion_vec = self.cohesion_vec.add(neighbor_position);
        self.alignment_vec = self.alignment_vec.add(neighbor_velocity);
    }
}

/// Where a fish would like to go: the vector it wanders along, and what it
/// has gathered of its neighbours.
#[derive(Clone, Copy, Debug, PartialEq, Eq, Structural)]
pub struct FishDesireVectors {
    pub wander_vector: Vector2,
    pub flocking: Flock,
}

/// A fish: a body that steers, with the behaviour it was last asked for,
/// what it can see, and the speeds and force it is capable of.
#[derive(Clone, Copy, Debug, PartialEq, Eq, Structural)]
pub struct Fish {
    pub body: Body,
    pub health: u32,
    pub behaviour: FishBehaviour,
    /// Cosine of half the angle of the cone in which the fish sees.
    pub vision_range: i64,
    pub vision_depth: i64,
    pub desires: FishDesireVectors,
    pub max_force: i64,
    pub peak_speed: i64,
    pub default_speed: i64,
    pub current_speed: i64,
}

/// The speed after one step from `current` toward `clamp_speed`: a tenth of
/// `clamp_speed` nearer to it, from whichever side. The tenth is rounded
/// away from zero, so that the step is never lost.
pub open spec fn ramped_speed(current: int, clamp_speed: int) -> int {
    let step = ratio_away(clamp_speed, 10);
    if current < clamp_speed {
        sat(current + step)
    } else if current > clamp_speed {
        sat(current - step)
    } else {
        current
    }
}

/// The speed that a fish of top speed `peak_speed` wishes for at `distance`
/// from the point it arrives at: in proportion to the distance inside the
/// arrival radius, and never above `peak_speed`.
pub open spec fn arrival_speed(peak_speed: int, distance: int) -> int {
    let slowed = mul_div(peak_speed, distance, ARRIVE_RADIUS as int);
    if slowed < peak_speed {
        slowed
    } else {
        peak_speed
    }
}

/// The point that a pursuer at `from` aims at: ahead of the target along
/// the target's velocity, by a tenth of the distance to it.
pub open spec fn lead_point(from: Vector2, target_pos: Vector2, target_vel: Vector2) -> Vector2 {
    let lead = fx_mul(target_pos.spec_sub(from).spec_length(), PURSUIT_LEAD as int);
    target_pos.spec_add(target_vel.spec_mag(lead))
}

impl Fish {
    /// The cached unit vector of the body is up to date.
    pub open spec fn wf(self) -> bool {
        self.body.wf()
    }

    /// `other` differs from the fish in nothing but where it is and how
    /// fast it moves.
    pub open spec fn moved_only(self, other: Fish) -> bool {
        other == (Fish {
            body: Body {
                position: other.body.position,
                velocity: other.body.velocity,
                velocity_norm: other.body.velocity_norm,
                ..self.body
            },
            current_speed: other.current_speed,
            ..self
        })
    }

    /// `force` is so near the fish's position that steering is left out.
    pub open spec fn dead_zone(self, force: Vector2) -> bool {
        force.spec_sub(self.body.position).spec_length_sqr() < SCALE
    }

    /// The fish after one step under the steering force `force`, its speed
    /// bounded by a step toward `clamp_speed`.
    #[verifier::opaque]
    pub open spec fn spec_steer(self, force: Vector2, clamp_speed: int) -> Fish {
        if self.dead_zone(force) {
            self
        } else {
            let speed = ramped_speed(self.current_speed as int, clamp_speed);
            let pull = force.spec_rem(self.max_force as int).spec_div(self.body.mass as int);
            let velocity = self.body.velocity.spec_add(pull).spec_rem(speed);
            Fish {
                body: Body {
                    position: self.body.position.spec_add(velocity),
                    velocity,
                    velocity_norm: velocity.spec_norm(),
                    ..self.body
                },
                current_speed: speed as i64,
                ..self
            }
        }
    }

    /// The wander vector with which the fish wanders on: the old one moved
    /// by `jitter` where the fish was wandering already, and else the
    /// velocity stretched to the wander reach.
    pub open spec fn wander_target(self, jitter: Vector2) -> Vector2 {
        if self.behaviour == FishBehaviour::Wandering {
            self.desires.wander_vector.spec_add(jitter)
        } else {
            self.body.velocity.spec_mag(WANDER_REACH as int)
        }
    }

    /// The fish after one tick of wandering in which the random source has
    /// handed out `jitter`: it steers along its wander vector, at its
    /// cruising speed.
    pub open spec fn spec_wander(self, jitter: Vector2) -> Fish {
        let target = self.wander_target(jitter);
        let turned = Fish {
            behaviour: FishBehaviour::Wandering,
            desires: FishDesireVectors { wander_vector: target, ..self.desires },
            ..self
        };
        turned.spec_steer(
            target.spec_mag(self.max_force as int).spec_sub(self.body.velocity),
            self.default_speed as int,
        )
    }

    /// The fish after one tick of seeking `target`: it wishes for a
    /// velocity toward the target as large as its greatest force, and steers
    /// by what its velocity lacks of that, at its top speed.
    pub open spec fn spec_seek(self, target: Vector2) -> Fish {
        let desired = target.spec_sub(self.body.position).spec_mag(self.max_force as int);
        (Fish { behaviour: FishBehaviour::Seeking, ..self }).spec_steer(
            desired.spec_sub(self.body.velocity),
            self.peak_speed as int,
        )
    }

    /// The fish after one tick of fleeing `target`: as seeking, with the
    /// wished-for velocity away from the target.
    pub open spec fn spec_flee(self, target: Vector2) -> Fish {
        let desired = self.body.position.spec_sub(target).spec_mag(self.max_force as int);
        (Fish { behaviour: FishBehaviour::Fleeing, ..self }).spec_steer(
            desired.spec_sub(self.body.velocity),
            self.peak_speed as int,
        )
    }

    /// The fish after one tick of arriving at `target`: it wishes for a
    /// velocity toward the target as large as its arrival speed, and steers
    /// by what its velocity lacks of that, at the arrival speed.
    pub open spec fn spec_arrive(self, target: Vector2) -> Fish {
        (Fish { behaviour: FishBehaviour::Arriving, ..self }).spec_steer(
            self.arrival_force(target),
            self.arrival_clamp(target),
        )
    }

    /// The speed that the fish wishes for when it arrives at `target`.
    pub open spec fn arrival_clamp(self, target: Vector2) -> int {
        arrival_speed(
            self.peak_speed as int,
            target.spec_sub(self.body.position).spec_length(),
        )
    }

    /// The force by which the fish steers when it arrives at `target`: what
    /// its velocity lacks of the velocity toward the target that it wishes
    /// for.
    pub open spec fn arrival_force(self, target: Vector2) -> Vector2 {
        target.spec_sub(self.body.position).spec_mag(self.arrival_clamp(target)).spec_sub(
            self.body.velocity,
        )
    }

    /// The fish after one tick of pursuing a target at `target_pos` that
    /// moves by `target_vel`: it seeks the point ahead of the target.
    pub open spec fn spec_pursuit(self, target_pos: Vector2, target_vel: Vector2) -> Fish {
        self.spec_seek(lead_point(self.body.position, target_pos, target_vel))
    }

    /// The fish after one tick of evading a target at `target_pos` that
    /// moves by `target_vel`: it flees the point ahead of the target.
    pub open spec fn spec_evade(self, target_pos: Vector2, target_vel: Vector2) -> Fish {
        self.spec_flee(lead_point(self.body.position, target_pos, target_vel))
    }

    /// The fish after it has taken the neighbour `neighbor` into its
    /// flocking account.
    pub open spec fn spec_ponder_flock(self, neighbor: Body) -> Fish {
        Fish {
            desires: FishDesireVectors {
                flocking: self.desires.flocking.spec_add(
                    self.body.position.spec_sub(neighbor.position),
                    neighbor.position,
                    neighbor.velocity_norm,
                ),
                ..self.desires
            },
            ..self
        }
    }

    /// The fish after it has steered by its flocking account, at its top
    /// speed, and cleared the account.
    pub open spec fn spec_compute_flock(self) -> Fish {
        let steered = self.spec_steer(self.desires.flocking.force(), self.peak_speed as int);
        Fish {
            desires: FishDesireVectors {
                flocking: steered.desires.flocking.spec_clear(),
                ..steered.desires
            },
            ..steered
        }
    }

    /// What the fish sees of `target`: the squared distance to it where it
    /// lies no farther than the fish sees and inside the cone round the
    /// fish's heading, and `OUT_OF_SIGHT` where it does not. How far the
    /// target lies is judged without rounding, and the squared distance is
    /// rounded up, so that it is zero only for a target at the fish's own
    /// place.
    pub open spec fn spec_in_sight(self, target: Vector2) -> int {
        let to_target = target.spec_sub(self.body.position);
        if to_target.norm_sq() > self.vision_depth * self.vision_depth {
            OUT_OF_SIGHT as int
        } else if self.body.velocity_norm.spec_dot(to_target.spec_norm()) < self.vision_range {
            OUT_OF_SIGHT as int
        } else {
            to_target.spec_length_sqr_up()
        }
    }

    /// The fish that `new` makes when the random source stands at `state`,
    /// and the state that it leaves: the fish is at rest in its behaviour
    /// and speed, cruises at a third of its top speed, weighs the three
    /// terms of flocking alike, and heads where the source says.
    pub open spec fn spec_new(
        pos: Vector2,
        mass: int,
        vision_range: i64,
        vision_depth: i64,
        peak_speed: i64,
        state: u64,
    ) -> (Fish, u64) {
        let heading = disk_sample(state, SCALE as int, DISK_TRIES as nat);
        (
            Fish {
                body: Body {
                    mass: floored_mass(mass) as i64,
                    position: pos,
                    velocity: heading.0,
                    velocity_norm: heading.0.spec_norm(),
                },
                health: FISH_HEALTH,
                behaviour: FishBehaviour::Still,
                vision_range,
                vision_depth,
                desires: FishDesireVectors {
                    wander_vector: Vector2::spec_zero(),
                    flocking: Flock {
                        separation_vec: Vector2::spec_zero(),
                        separation_w: SCALE,
                        cohesion_vec: Vector2::spec_zero(),
                        cohesion_w: SCALE,
                        alignment_vec: Vector2::spec_zero(),
                        alignment_w: SCALE,
                    },
                },
                max_force: MAX_FORCE,
                peak_speed,
                default_speed: mul_div(peak_speed as int, 1, 3) as i64,
                current_speed: 0,
            },
            heading.1,
        )
    }

    /// One tick of wandering with the random source at `state`, and the
    /// state that it leaves: the source is drawn from only where the fish
    /// was wandering already.
    pub open spec fn wander_step(self, state: u64) -> (Fish, u64) {
        if self.behaviour == FishBehaviour::Wandering {
            let drawn = disk_sample(state, WANDER_JITTER as int, DISK_TRIES as nat);
            (self.spec_wander(drawn.0), drawn.1)
        } else {
            (self.spec_wander(Vector2::spec_zero()), state)
        }
    }

    /// A fish at rest in its behaviour, heading in a random direction.
    /// `vision_range` is the cosine of half the angle of its cone of sight.
    pub fn new(
        pos: Vector2,
        mass: i64,
        vision_range: i64,
        vision_depth: i64,
        peak_speed: i64,
        rng: &mut Rng,
    ) -> (r: Self)
        ensures
            r == Fish::spec_new(
                pos,
                mass as int,
                vision_range,
                vision_depth,
                peak_speed,
                old(rng).state,
            ).0,
            final(rng).state == Fish::spec_new(
                pos,
                mass as int,
                vision_range,
                vision_depth,
                peak_speed,
                old(rng).state,
            ).1,
            r.wf(),
    {
        Self {
            body: Body::new(mass, pos, rng),
            health: FISH_HEALTH,
            behaviour: FishBehaviour::Still,
            vision_range,
            vision_depth,
            max_force: MAX_FORCE,
            peak_speed,
            default_speed: mul_div_fixed(peak_speed, 1, 3),
            current_speed: 0,
            desires: FishDesireVectors {
                wander_vector: Vector2::new(0, 0),
                flocking: Flock {
                    separation_vec: Vector2::new(0, 0),
                    separation_w: SCALE,
                    cohesion_vec: Vector2::new(0, 0),
                    cohesion_w: SCALE,
                    alignment_vec: Vector2::new(0, 0),
                    alignment_w: SCALE,
                },
            },
        }
    }

    /// One step under a steering force: nothing where the force lies within
    /// one unit of the position; else the speed takes a step toward
    /// `clamp_speed`, the force, cut to the greatest force and divided by
    /// the mass, is added to the velocity, the velocity is cut to the speed
    /// and added to the position.
    pub fn steer(&mut self, steer_force: Vector2, clamp_speed: i64)
        ensures
            *final(self) == old(self).spec_steer(steer_force, clamp_speed as int),
            old(self).dead_zone(steer_force) ==> *final(self) == *old(self),
            old(self).moved_only(*final(self)),
            old(self).wf() ==> final(self).wf(),
    {
        reveal(Fish::spec_steer);
        if steer_force.sub(self.body.position).length_sqr() < SCALE {
            return ;
        }
        let clamp_increment: i64 = div_away_wide(clamp_speed as i128, 10);
        if self.current_speed < clamp_speed {
            self.current_speed = add_fixed(self.current_speed, clamp_increment);
        } else if self.current_speed > clamp_speed {
            self.current_speed = sub_fixed(self.current_speed, clamp_increment);
        }
        let pull = steer_force.rem(self.max_force).div(self.body.mass);
        self.body.velocity = self.body.velocity.add(pull).rem(self.current_speed);
        self.body.position = self.body.position.add(self.body.velocity);
        self.body.velocity_norm = self.body.velocity.norm();
    }

    /// The two rectangles of the fish on a screen shifted by `offset`: the
    /// one it takes up, and the zone ahead of it in which it meets others.
    pub fn update_rects(&self, offset: Vector2) -> (r: (Rect, Rect))
        ensures
            r.0 == self.body.spec_rect(offset),
            r.1 == self.body.spec_collision_rect(offset),
    {
        (self.body.rect(offset), self.body.collision_rect(offset))
    }

    /// Meanders: a fish that was wandering already moves its wander vector
    /// by a random step, any other starts from its velocity.
    pub fn wander(&mut self, rng: &mut Rng)
        ensures
            *final(self) == old(self).wander_step(old(rng).state).0,
            final(rng).state == old(self).wander_step(old(rng).state).1,
            final(self).behaviour == FishBehaviour::Wandering,
            old(self).wf() ==> final(self).wf(),
    {
        match self.behaviour {
            FishBehaviour::Wandering => {
                let jitter = Vector2::random_in_radius(WANDER_JITTER, rng);
                self.desires.wander_vector = self.desires.wander_vector.add(jitter);
            },
            _ => {
                self.behaviour = FishBehaviour::Wandering;
                self.desires.wander_vector = self.body.velocity.mag(WANDER_REACH);
            },
        }
        let force = self.desires.wander_vector.mag(self.max_force).sub(self.body.velocity);
        self.steer(force, self.default_speed);
    }

    /// Steers toward `target` at full force.
    pub fn seek(&mut self, target: Vector2)
        ensures
            *final(self) == old(self).spec_seek(target),
            final(self).behaviour == FishBehaviour::Seeking,
            old(self).wf() ==> final(self).wf(),
    {
        let desired_velocity = target.sub(self.body.position).mag(self.max_force);
        self.behaviour = FishBehaviour::Seeking;
        self.steer(desired_velocity.sub(self.body.velocity), self.peak_speed);
    }

    /// The speed that a fish of top speed `peak_speed` wishes for at
    /// `distance` from the point it arrives at.
    pub fn desired_speed(peak_speed: i64, distance: i64) -> (r: i64)
        ensures
            r == arrival_speed(peak_speed as int, distance as int),
    {
        let slowed: i64 = mul_div_fixed(peak_speed, distance, ARRIVE_RADIUS);
        if slowed < peak_speed {
            slowed
        } else {
            peak_speed
        }
    }

    /// Steers toward `target`, the slower the nearer it is.
    pub fn arrive(&mut self, target: Vector2)
        ensures
            *final(self) == old(self).spec_arrive(target),
            final(self).behaviour == FishBehaviour::Arriving,
            old(self).wf() ==> final(self).wf(),
    {
        let to_target = target.sub(self.body.position);
        let clipped_speed: i64 = Fish::desired_speed(self.peak_speed, to_target.length());
        let desired_velocity = to_target.mag(clipped_speed);
        self.behaviour = FishBehaviour::Arriving;
        self.steer(desired_velocity.sub(self.body.velocity), clipped_speed);
    }

    /// Steers away from `target` at full force.
    pub fn flee(&mut self, target: Vector2)
        ensures
            *final(self) == old(self).spec_flee(target),
            final(self).behaviour == FishBehaviour::Fleeing,
            old(self).wf() ==> final(self).wf(),
    {
        let desired_velocity = self.body.position.sub(target).mag(self.max_force);
        self.behaviour = FishBehaviour::Fleeing;
        self.steer(desired_velocity.sub(self.body.velocity), self.peak_speed);
    }

    /// Seeks the point at which a target that goes on as it does will be.
    pub fn pursuit(&mut self, target_pos: Vector2, target_vel: Vector2)
        ensures
            *final(self) == old(self).spec_pursuit(target_pos, target_vel),
            final(self).behaviour == FishBehaviour::Seeking,
            old(self).wf() ==> final(self).wf(),
    {
        let lead: i64 = mul_fixed(target_pos.sub(self.body.position).length(), PURSUIT_LEAD);
        let desired_pos = target_pos.add(target_vel.mag(lead));
        self.seek(desired_pos);
    }

    /// Flees the point at which a target that goes on as it does will be.
    pub fn evade(&mut self, target_pos: Vector2, target_vel: Vector2)
        ensures
            *final(self) == old(self).spec_evade(target_pos, target_vel),
            final(self).behaviour == FishBehaviour::Fleeing,
            old(self).wf() ==> final(self).wf(),
    {
        let lead: i64 = mul_fixed(target_pos.sub(self.body.position).length(), PURSUIT_LEAD);
        let desired_pos = target_pos.add(target_vel.mag(lead));
        self.flee(desired_pos);
    }

    /// Takes one neighbour into this tick's flocking account.
    pub fn ponder_flock(&mut self, neighbor: Body)
        ensures
            *final(self) == old(self).spec_ponder_flock(neighbor),
    {
        self.desires.flocking.add(
            self.body.position.sub(neighbor.position),
            neighbor.position,
            neighbor.velocity_norm,
        )
    }

    /// Steers by what the tick has gathered of the neighbours, and starts
    /// the account anew.
    pub fn compute_flock(&mut self)
        ensures
            *final(self) == old(self).spec_compute_flock(),
            final(self).desires.flocking == old(self).desires.flocking.spec_clear(),
            old(self).wf() ==> final(self).wf(),
    {
        let separation = self.desires.flocking.separation_vec.norm().scale(
            self.desires.flocking.separation_w,
        );
        let cohesion = self.desires.flocking.cohesion_vec.norm().scale(
            self.desires.flocking.cohesion_w,
        );
        let alignment = self.desires.flocking.alignment_vec.norm().scale(
            self.desires.flocking.alignment_w,
        );
        let flock_vec = separation.add(cohesion).add(alignment);
        self.steer(flock_vec, self.peak_speed);
        self.desires.flocking.clear();
    }

    /// Where the fish is.
    pub fn pos(&self) -> (r: Vector2)
        ensures
            r == self.body.position,
    {
        self.body.position
    }
}

impl Vision for Fish {
    open spec fn sight(&self, target: Vector2) -> int {
        self.spec_in_sight(target)
    }

    fn in_sight(&self, target: Vector2) -> (r: i64) {
        let to_target = target.sub(self.body.position);
        let depth: u128 = if self.vision_depth < 0 {
            (-(self.vision_depth as i128)) as u128
        } else {
            self.vision_depth as u128
        };
        assert(depth * depth <= 0x4000_0000_0000_0000_0000_0000_0000_0000u128 && depth * depth
            == self.vision_depth * self.vision_depth) by (nonlinear_arith)
            requires
                depth <= 0x8000_0000_0000_0000u128,
                depth == self.vision_depth || depth == -self.vision_depth,
        ;
        if to_target.length_sqr_wide() > depth * depth {
            return OUT_OF_SIGHT;
        }
        if self.body.velocity_norm.dot(to_target.norm()) < self.vision_range {
            return OUT_OF_SIGHT;
        }
        to_target.length_sqr_up()
    }
}

impl Position for Fish {
    open spec fn spec_pos(&self) -> Vector2 {
        self.body.position
    }

    open spec fn spec_vel(&self) -> Vector2 {
        self.body.velocity
    }

    fn pos(&self) -> (r: Vector2) {
        self.body.position
    }

    fn vel(&self) -> (r: Vector2) {
        self.body.velocity
    }
}

/// Radius of the disk round a plant in which its offspring take root.
pub const SPREADING_RADIUS: i64 = 250_000;

/// Mass above which a plant divides.
pub const DIVISION_MASS: i64 = 40_000;

/// Health that one tick of growth adds to a plant.
pub const GROWTH_HEALTH: u32 = 2;

/// Health that dividing costs a plant.
pub const DIVISION_COST: u32 = 20;

/// A plant: a body that stays where it is, grows, and divides once it has
/// outgrown its division mass.
#[derive(Clone, Copy, Debug, PartialEq, Eq, Structural)]
pub struct Plant {
    pub body: Body,
    pub spreading_radius: i64,
    pub division_mass: i64,
    pub health: u32,
}

/// The health of a new plant of mass `mass`: one and a half times its mass
/// in whole units, as far as a `u32` counts.
pub open spec fn plant_health(mass: int) -> int {
    if mass <= 0 {
        0
    } else if (mass * 3) / (2 * SCALE) > u32::MAX {
        u32::MAX as int
    } else {
        (mass * 3) / (2 * SCALE)
    }
}

impl Plant {
    /// The body is well-formed and the plant divides at a mass above the
    /// floor of all masses.
    pub open spec fn wf(self) -> bool {
        &&& self.body.wf()
        &&& self.division_mass > MASS_FLOOR
    }

    /// The plant that `new` makes at `pos` when the random source stands at
    /// `state`, and the state that it leaves.
    pub open spec fn spec_new(pos: Vector2, mass: int, state: u64) -> (Plant, u64) {
        let heading = disk_sample(state, SCALE as int, DISK_TRIES as nat);
        (
            Plant {
                body: Body {
                    mass: floored_mass(mass) as i64,
                    position: pos,
                    velocity: heading.0,
                    velocity_norm: heading.0.spec_norm(),
                },
                spreading_radius: SPREADING_RADIUS,
                division_mass: DIVISION_MASS,
                health: plant_health(mass) as u32,
            },
            heading.1,
        )
    }

    /// The mass that one tick of growth adds: a twentieth of the mass at
    /// which the plant divides.
    pub open spec fn growth(self) -> int {
        mul_div(self.division_mass as int, 1, 20)
    }

    /// The mass that dividing takes from the plant: two thirds of the mass
    /// at which it divides.
    pub open spec fn division_loss(self) -> int {
        mul_div(self.division_mass as int, 2, 3)
    }

    /// The mass that each of the two offspring is sown with: a third of the
    /// mass at which the plant divides.
    pub open spec fn seed_mass(self) -> int {
        mul_div(self.division_mass as int, 1, 3)
    }

    /// The plant after one tick of growth, before it may divide.
    pub open spec fn grown(self) -> Plant {
        Plant {
            health: if self.health + GROWTH_HEALTH > u32::MAX {
                u32::MAX
            } else {
                (self.health + GROWTH_HEALTH) as u32
            },
            body: self.body.spec_grow(self.growth()),
            ..self
        }
    }

    /// The plant has outgrown the mass at which it divides.
    pub open spec fn divides(self) -> bool {
        self.body.mass > self.division_mass
    }

    /// The plant after it has divided: it has paid for it in health, down to
    /// zero at most, and in mass.
    pub open spec fn divided(self) -> Plant {
        Plant {
            health: if self.health < DIVISION_COST {
                0
            } else {
                (self.health - DIVISION_COST) as u32
            },
            body: self.body.spec_shrink(self.division_loss()),
            ..self
        }
    }

    /// The health that each of the two offspring is sown with: one and a
    /// half times a third of the division mass, which is half the division
    /// mass, in whole units and as far as a `u32` counts. It is taken from
    /// the division mass itself, not from the rounded mass of the seed.
    pub open spec fn seed_health(self) -> int {
        if self.division_mass <= 0 {
            0
        } else if (self.division_mass as int) / (2 * SCALE) > u32::MAX {
            u32::MAX as int
        } else {
            (self.division_mass as int) / (2 * SCALE)
        }
    }

    /// One offspring of the plant, sown with the random source at `state`,
    /// and the state that this leaves: the place is drawn from the disk
    /// round the plant first, the heading of its body second.
    pub open spec fn seedling(self, state: u64) -> (Plant, u64) {
        let place = disk_sample(
            state,
            at_least_zero(self.spreading_radius as int),
            DISK_TRIES as nat,
        );
        let sown = Plant::spec_new(
            self.body.position.spec_add(place.0),
            self.seed_mass(),
            place.1,
        );
        (Plant { health: self.seed_health() as u32, ..sown.0 }, sown.1)
    }

    /// How far the plant reaches: as many units as it is wide in pixels.
    pub open spec fn reach(self) -> int {
        size_of(self.body.mass as int) * SCALE
    }

    /// What the plant notices of `target`: the squared distance to it where
    /// it is within the plant's reach, `OUT_OF_SIGHT` where it is not. How
    /// far the target lies is judged without rounding, and the squared
    /// distance is rounded up.
    pub open spec fn spec_in_sight(self, target: Vector2) -> int {
        let to_target = target.spec_sub(self.body.position);
        if to_target.norm_sq() > self.reach() * self.reach() {
            OUT_OF_SIGHT as int
        } else {
            to_target.spec_length_sqr_up()
        }
    }

    /// A plant of mass `mass` at `pos`: see `spec_new`.
    pub fn new(pos: Vector2, mass: i64, rng: &mut Rng) -> (r: Self)
        ensures
            r == Plant::spec_new(pos, mass as int, old(rng).state).0,
            final(rng).state == Plant::spec_new(pos, mass as int, old(rng).state).1,
            r.wf(),
    {
        let health: u32 = if mass <= 0 {
            0
        } else {
            let whole: u128 = ((mass as u128) * 3) / 2000;
            if whole > 4294967295u128 {
                u32::MAX
            } else {
                whole as u32
            }
        };
        Self {
            body: Body::new(mass, pos, rng),
            spreading_radius: SPREADING_RADIUS,
            health,
            division_mass: DIVISION_MASS,
        }
    }

    /// Divides the plant: it shrinks, and two offspring are sown round it.
    pub fn spread(&mut self, rng: &mut Rng) -> (r: (Self, Self))
        ensures
            *final(self) == old(self).divided(),
            r.0 == old(self).seedling(old(rng).state).0,
            r.1 == old(self).seedling(old(self).seedling(old(rng).state).1).0,
            final(rng).state == old(self).seedling(old(self).seedling(old(rng).state).1).1,
            old(self).wf() ==> final(self).wf(),
            r.0.wf(),
            r.1.wf(),
    {
        self.health = if self.health < DIVISION_COST { 0 } else { self.health - DIVISION_COST };
        self.body.shrink(mul_div_fixed(self.division_mass, 2, 3));
        let seed_mass: i64 = mul_div_fixed(self.division_mass, 1, 3);
        let seed_health: u32 = if self.division_mass <= 0 {
            0
        } else {
            let whole: u64 = (self.division_mass as u64) / 2000;
            if whole > 4294967295u64 {
                u32::MAX
            } else {
                whole as u32
            }
        };
        let first_place = self.body.position.add(
            Vector2::random_in_radius(self.spreading_radius, rng),
        );
        let mut first = Self::new(first_place, seed_mass, rng);
        first.health = seed_health;
        let second_place = self.body.position.add(
            Vector2::random_in_radius(self.spreading_radius, rng),
        );
        let mut second = Self::new(second_place, seed_mass, rng);
        second.health = seed_health;
        (first, second)
    }

    /// One tick of growth: the plant gains health and mass, and divides
    /// where it has outgrown its division mass; the two offspring are then
    /// handed out.
    pub fn grow(&mut self, rng: &mut Rng) -> (r: Option<(Self, Self)>)
        ensures
            old(self).grown().divides() ==> {
                let parent = old(self).grown();
                let first = parent.seedling(old(rng).state);
                let second = parent.seedling(first.1);
                &&& *final(self) == parent.divided()
                &&& r == Some((first.0, second.0))
                &&& final(rng).state == second.1
            },
            !old(self).grown().divides() ==> {
                &&& *final(self) == old(self).grown()
                &&& r.is_none()
                &&& *final(rng) == *old(rng)
            },
            old(self).wf() ==> final(self).wf(),
            r matches Some(pair) ==> pair.0.wf() && pair.1.wf(),
    {
        self.health = if self.health > u32::MAX - GROWTH_HEALTH {
            u32::MAX
        } else {
            self.health + GROWTH_HEALTH
        };
        self.body.grow(mul_div_fixed(self.division_mass, 1, 20));
        if self.body.mass > self.division_mass {
            return Some(self.spread(rng));
        }
        None
    }

    /// The rectangle of the plant on a screen shifted by `offset`; it is
    /// the zone in which the plant meets others too.
    pub fn update_rects(&self, offset: Vector2) -> (r: (Rect, Rect))
        ensures
            r.0 == self.body.spec_rect(offset),
            r.1 == r.0,
    {
        let rect = self.body.rect(offset);
        (rect, rect)
    }
}

impl Vision for Plant {
    open spec fn sight(&self, target: Vector2) -> int {
        self.spec_in_sight(target)
    }

    fn in_sight(&self, target: Vector2) -> (r: i64) {
        let to_target = target.sub(self.body.position);
        let reach: u128 = (Body::get_size(self.body.mass) as u128) * 1000;
        assert(reach * reach <= 0x1_0000_0000_0000_0000_0000_0000u128) by (nonlinear_arith)
            requires
                reach <= 0x1_0000_0000_0000u128,
        ;
        if to_target.length_sqr_wide() > reach * reach {
            return OUT_OF_SIGHT;
        }
        to_target.length_sqr_up()
    }
}

impl Position for Plant {
    open spec fn spec_pos(&self) -> Vector2 {
        self.body.position
    }

    open spec fn spec_vel(&self) -> Vector2 {
        Vector2::spec_zero()
    }

    fn pos(&self) -> (r: Vector2) {
        self.body.position
    }

    fn vel(&self) -> (r: Vector2) {
        Vector2::default()
    }
}

/// Steering by a force that is the fish's own position moves nothing:
/// position, velocity and speed stay as they are.
pub proof fn lemma_steer_at_position_is_still(fish: Fish, clamp_speed: int)
    ensures
        fish.dead_zone(fish.body.position),
        fish.spec_steer(fish.body.position, clamp_speed) == fish,
{
    reveal(Fish::spec_steer);
    let gap = fish.body.position.spec_sub(fish.body.position);
    assert(gap == Vector2::spec_zero());
    assert(gap.norm_sq() == 0) by (nonlinear_arith)
        requires
            gap.x == 0,
            gap.y == 0,
            gap.norm_sq() == gap.x * gap.x + gap.y * gap.y,
    ;
}

/// A fish at rest at the origin that arrives at a point ahead of it on the
/// first axis, far enough off for it to wish for a unit of speed, moves
/// toward the point along the axis, however heavy it is: its step is never
/// rounded to nothing.
pub proof fn lemma_arrive_from_rest_moves(fish: Fish, distance: i64)
    requires
        fish.body.position == Vector2::spec_zero(),
        fish.body.velocity == Vector2::spec_zero(),
        fish.body.mass >= MASS_FLOOR,
        fish.max_force > 0,
        fish.current_speed >= 0,
        distance > 0,
        arrival_speed(fish.peak_speed as int, distance as int) >= SCALE,
    ensures
        fish.spec_arrive(Vector2 { x: distance, y: 0 }).behaviour == FishBehaviour::Arriving,
        fish.spec_arrive(Vector2 { x: distance, y: 0 }).body.position.x > 0,
        fish.spec_arrive(Vector2 { x: distance, y: 0 }).body.position.y == 0,
        fish.spec_arrive(Vector2 { x: distance, y: 0 }).body.position.x <= fish.spec_arrive(
            Vector2 { x: distance, y: 0 },
        ).current_speed,
        fish.spec_arrive(Vector2 { x: distance, y: 0 }).body.velocity == fish.spec_arrive(
            Vector2 { x: distance, y: 0 },
        ).body.position,
{
    reveal(Fish::spec_steer);
    let target = Vector2 { x: distance, y: 0 };
    let to_target = target.spec_sub(fish.body.position);
    assert(to_target == target);
    lemma_length_along_axis(to_target);
    let c = arrival_speed(fish.peak_speed as int, to_target.spec_length());
    assert(c == arrival_speed(fish.peak_speed as int, distance as int));
    lemma_mag_along_axis(to_target, c as i64);
    let desired = to_target.spec_mag(c);
    let force = desired.spec_sub(fish.body.velocity);
    assert(force == (Vector2 { x: c as i64, y: 0 }));
    let turned = Fish { behaviour: FishBehaviour::Arriving, ..fish };

    let gap = force.spec_sub(turned.body.position);
    assert(gap == force);
    lemma_length_along_axis(gap);
    assert(c * c >= 1_000_000) by (nonlinear_arith)
        requires
            c >= 1000,
    ;
    assert(!turned.dead_zone(force));

    let speed = ramped_speed(turned.current_speed as int, c);
    lemma_adiv_sign(c, 10);
    assert(speed > 0);

    let clamped = force.spec_rem(turned.max_force as int);
    lemma_rem_along_axis(force, turned.max_force);
    assert(clamped.x > 0 && clamped.y == 0);
    let pull = clamped.spec_div(turned.body.mass as int);
    lemma_div_keeps_direction(clamped, turned.body.mass);
    assert(pull.x > 0 && pull.y == 0);
    let sum = turned.body.velocity.spec_add(pull);
    assert(sum == pull);
    lemma_rem_along_axis(sum, speed as i64);
    let velocity = sum.spec_rem(speed);
    assert(0 < velocity.x <= speed && velocity.y == 0);
    assert(turned.body.position.spec_add(velocity) == velocity);
}

/// A fish at rest that flees a point comes no nearer to it: whatever step
/// it takes leads away from the point in both coordinates.
pub proof fn lemma_flee_from_rest_gains_distance(fish: Fish, threat: Vector2)
    requires
        fish.body.velocity == Vector2::spec_zero(),
        fish.body.mass >= MASS_FLOOR,
        fish.max_force >= 0,
    ensures
        fish.spec_flee(threat).behaviour == FishBehaviour::Fleeing,
        same_side(fish.spec_flee(threat).body.velocity, fish.body.position.spec_sub(threat)),
        threat.spec_sub(fish.spec_flee(threat).body.position).norm_sq() >= threat.spec_sub(
            fish.body.position,
        ).norm_sq(),
        threat.spec_sub(fish.spec_flee(threat).body.position).spec_length() >= threat.spec_sub(
            fish.body.position,
        ).spec_length(),
{
    reveal(Fish::spec_steer);
    let turned = Fish { behaviour: FishBehaviour::Fleeing, ..fish };
    let away = fish.body.position.spec_sub(threat);
    let desired = away.spec_mag(fish.max_force as int);
    lemma_mag_keeps_side(away, fish.max_force);
    let force = desired.spec_sub(fish.body.velocity);
    assert(force == desired);
    let after = fish.spec_flee(threat);
    assert(after == turned.spec_steer(force, fish.peak_speed as int));
    let before_gap = threat.spec_sub(fish.body.position);
    let after_gap = threat.spec_sub(after.body.position);
    if turned.dead_zone(force) {
        assert(after == turned);
    } else {
        let speed = ramped_speed(turned.current_speed as int, fish.peak_speed as int);
        let clamped = force.spec_rem(turned.max_force as int);
        lemma_rem_keeps_side(force, turned.max_force);
        let pull = clamped.spec_div(turned.body.mass as int);
        lemma_div_keeps_direction(clamped, turned.body.mass);
        let sum = turned.body.velocity.spec_add(pull);
        assert(sum == pull);
        lemma_rem_keeps_side(sum, speed as i64);
        let velocity = sum.spec_rem(speed);
        assert(same_side(velocity, away));
        assert(after.body.velocity == velocity);
        assert(after.body.position == fish.body.position.spec_add(velocity));
    }
    assert(abs_int(before_gap.x as int) <= abs_int(after_gap.x as int));
    assert(abs_int(before_gap.y as int) <= abs_int(after_gap.y as int));
    lemma_longer_by_components(before_gap, after_gap);
}

/// A fish that was steered moves no faster than the speed it has reached,
/// and has moved by its new velocity.
pub proof fn lemma_steer_bounds_speed(fish: Fish, force: Vector2, clamp_speed: i64)
    requires
        !fish.dead_zone(force),
    ensures
        fish.spec_steer(force, clamp_speed as int).current_speed == ramped_speed(
            fish.current_speed as int,
            clamp_speed as int,
        ),
        fish.spec_steer(force, clamp_speed as int).body.velocity.len_floor() <= at_least_zero(
            fish.spec_steer(force, clamp_speed as int).current_speed as int,
        ),
        fish.spec_steer(force, clamp_speed as int).body.position == fish.body.position.spec_add(
            fish.spec_steer(force, clamp_speed as int).body.velocity,
        ),
{
    reveal(Fish::spec_steer);
    let speed = ramped_speed(fish.current_speed as int, clamp_speed as int);
    let pull = force.spec_rem(fish.max_force as int).spec_div(fish.body.mass as int);
    lemma_rem_bounds_length(fish.body.velocity.spec_add(pull), speed as i64);
}

/// The nearer the target, the lower the speed that an arriving fish wishes
/// for.
pub proof fn lemma_arrival_speed_monotone(peak_speed: i64, nearer: i64, farther: i64)
    requires
        0 <= peak_speed,
        0 <= nearer <= farther,
    ensures
        arrival_speed(peak_speed as int, nearer as int) <= arrival_speed(
            peak_speed as int,
            farther as int,
        ),
{
    assert(0 <= peak_speed * nearer <= peak_speed * farther) by (nonlinear_arith)
        requires
            0 <= peak_speed,
            0 <= nearer <= farther,
    ;
    lemma_tdiv_monotone(peak_speed * nearer, peak_speed * farther, ARRIVE_RADIUS as int);
}

/// Inside the arrival radius the wished-for speed at the farther of two
/// distances is above that at the nearer by `gap` steps at least, where
/// the top speed times the difference of the distances is `gap` arrival
/// radii or more.
pub proof fn lemma_arrival_speed_gap(peak_speed: i64, nearer: i64, farther: i64, gap: nat)
    requires
        0 <= peak_speed,
        0 <= nearer <= farther <= ARRIVE_RADIUS,
        peak_speed * (farther - nearer) >= gap * ARRIVE_RADIUS,
    ensures
        arrival_speed(peak_speed as int, nearer as int) + gap <= arrival_speed(
            peak_speed as int,
            farther as int,
        ),
{
    let radius = ARRIVE_RADIUS as int;
    let a = peak_speed * nearer;
    let b = peak_speed * farther;
    assert(0 <= a && a + gap * radius <= b && b <= peak_speed * radius) by (nonlinear_arith)
        requires
            a == peak_speed * nearer,
            b == peak_speed * farther,
            0 <= peak_speed,
            0 <= nearer <= farther <= radius,
            peak_speed * (farther - nearer) >= gap * radius,
    ;
    lemma_tdiv(a, radius);
    lemma_tdiv(b, radius);
    let q1 = tdiv(a, radius);
    let q2 = tdiv(b, radius);
    assert(q1 + gap <= q2 && q2 <= peak_speed) by (nonlinear_arith)
        requires
            q1 >= 0,
            q2 >= 0,
            q1 * radius <= a,
            b < (q2 + 1) * radius,
            q2 * radius <= b,
            a + gap * radius <= b,
            b <= peak_speed * radius,
            radius > 0,
    ;
}

/// Inside the arrival radius the wished-for speed falls strictly with the
/// distance, wherever the two distances are far enough apart for the
/// speeds to differ by a fixed-point step.
pub proof fn lemma_arrival_speed_strict(peak_speed: i64, nearer: i64, farther: i64)
    requires
        0 <= peak_speed,
        0 <= nearer < farther <= ARRIVE_RADIUS,
        peak_speed * (farther - nearer) >= ARRIVE_RADIUS,
    ensures
        arrival_speed(peak_speed as int, nearer as int) < arrival_speed(
            peak_speed as int,
            farther as int,
        ),
{
    lemma_arrival_speed_gap(peak_speed, nearer, farther, 1);
}

/// Of a fish that has not gathered speed yet, arriving at the nearer of two
/// points leaves it with no more speed than arriving at the farther: a
/// tenth of the speed it wishes for, which bounds its velocity. The speed
/// is strictly less where both points are within the arrival radius and
/// far enough apart for the tenths to differ by a fixed-point step.
pub proof fn lemma_arrive_speed_by_distance(fish: Fish, nearer: Vector2, farther: Vector2)
    requires
        fish.current_speed == 0,
        fish.peak_speed >= 0,
        !fish.dead_zone(fish.arrival_force(nearer)),
        !fish.dead_zone(fish.arrival_force(farther)),
        nearer.spec_sub(fish.body.position).spec_length() <= farther.spec_sub(
            fish.body.position,
        ).spec_length(),
    ensures
        fish.spec_arrive(nearer).current_speed == ratio_away(fish.arrival_clamp(nearer), 10),
        fish.spec_arrive(farther).current_speed == ratio_away(fish.arrival_clamp(farther), 10),
        fish.arrival_clamp(nearer) <= fish.arrival_clamp(farther),
        fish.spec_arrive(nearer).current_speed <= fish.spec_arrive(farther).current_speed,
        fish.spec_arrive(nearer).body.velocity.len_floor() <= fish.spec_arrive(
            nearer,
        ).current_speed,
        fish.spec_arrive(farther).body.velocity.len_floor() <= fish.spec_arrive(
            farther,
        ).current_speed,
        farther.spec_sub(fish.body.position).spec_length() <= ARRIVE_RADIUS && fish.peak_speed * (
        farther.spec_sub(fish.body.position).spec_length() - nearer.spec_sub(
            fish.body.position,
        ).spec_length()) >= 10 * ARRIVE_RADIUS ==> fish.spec_arrive(nearer).current_speed
            < fish.spec_arrive(farther).current_speed,
{
    reveal(Fish::spec_steer);
    let turned = Fish { behaviour: FishBehaviour::Arriving, ..fish };
    let d1 = nearer.spec_sub(fish.body.position).spec_length();
    let d2 = farther.spec_sub(fish.body.position).spec_length();
    let c1 = fish.arrival_clamp(nearer);
    let c2 = fish.arrival_clamp(farther);
    lemma_arrival_speed_monotone(fish.peak_speed, d1 as i64, d2 as i64);
    assert(fish.peak_speed * d1 >= 0) by (nonlinear_arith)
        requires
            fish.peak_speed >= 0,
            d1 >= 0,
    ;
    lemma_tdiv(fish.peak_speed * d1, ARRIVE_RADIUS as int);
    assert(0 <= c1 <= c2);
    lemma_adiv_monotone(c1, c2, 10, 0);
    lemma_adiv_bounds(c2, 10);
    lemma_steer_bounds_speed(turned, fish.arrival_force(nearer), c1 as i64);
    lemma_steer_bounds_speed(turned, fish.arrival_force(farther), c2 as i64);
    if d2 <= ARRIVE_RADIUS && fish.peak_speed * (d2 - d1) >= 10 * ARRIVE_RADIUS {
        lemma_arrival_speed_gap(fish.peak_speed, d1 as i64, d2 as i64, 10);
        lemma_adiv_monotone(c1, c2, 10, 1);
    }
}

/// The offspring of a plant that divides at the usual mass are sown with a
/// third of that mass and with a health of 20.
pub proof fn lemma_offspring_health(plant: Plant, state: u64)
    requires
        plant.division_mass == DIVISION_MASS,
    ensures
        plant.seedling(state).0.health == 20,
        plant.seedling(state).0.body.mass == 13_333,
{
    assert(2 * SCALE == 2000);
    assert(40_000int / 2000 == 20);
    assert(plant.seed_health() == 20);
}

/// A healthy plant that has outgrown its division mass divides at its next
/// growth: its two offspring together weigh less than it did, and it is
/// left with less mass and less health than it had.
pub proof fn lemma_division_shrinks(plant: Plant, state: u64)
    requires
        plant.wf(),
        plant.divides(),
        plant.health > 0,
    ensures
        plant.grown().divides(),
        plant.grown().seedling(state).0.body.mass + plant.grown().seedling(
            plant.grown().seedling(state).1,
        ).0.body.mass < plant.body.mass,
        plant.grown().divided().body.mass < plant.body.mass,
        plant.grown().divided().health < plant.health,
{
    let d = plant.division_mass as int;
    lemma_tdiv(d * 1, 20);
    lemma_tdiv(d * 2, 3);
    lemma_tdiv(d * 1, 3);
}

} // verus!
