//! The ecosystem: three populations, and the tick that moves, feeds and
//! culls them.

use crate::bodies::{Position, Vision, MASS_FLOOR};
use crate::fishes::{
    arrival_speed, lemma_arrive_from_rest_moves, lemma_flee_from_rest_gains_distance, Fish,
    FishBehaviour, Plant,
};
use crate::fixed::{lemma_tdiv, mul_div, mul_div_fixed, SCALE};
use crate::random::Rng;
use crate::vectors::{at_least_zero, disk_sample, Vector2, DISK_TRIES};
use vstd::prelude::*;

verus! {

/// How far one tick moves the screen for each direction that is held.
pub const PAN_SPEED: i64 = 6_000;

/// Distance from a predator under which a prey is eaten.
pub const LETHAL_DISTANCE: i64 = 10_000;

/// Health under which a grazed plant dies.
pub const SURVIVAL_HEALTH: u32 = 3;

/// Number of ticks after which the plants grow once.
pub const GROWTH_PERIOD: u32 = 60;

/// Which directions of panning are held.
#[derive(Clone, Copy, Debug, PartialEq, Eq, Structural)]
pub struct ScreenControl {
    pub up: bool,
    pub down: bool,
    pub right: bool,
    pub left: bool,
}

impl ScreenControl {
    /// No direction is held.
    pub fn new() -> (r: Self)
        ensures
            r == (ScreenControl { up: false, down: false, right: false, left: false }),
    {
        Self { up: false, down: false, right: false, left: false }
    }

    /// The shift of the screen that one tick of the held directions makes.
    pub open spec fn shift(self) -> Vector2 {
        Vector2 {
            x: ((if self.right { -PAN_SPEED } else { 0 }) + (if self.left {
                PAN_SPEED as int
            } else {
                0
            })) as i64,
            y: ((if self.up { PAN_SPEED as int } else { 0 }) + (if self.down {
                -PAN_SPEED
            } else {
                0
            })) as i64,
        }
    }
}

/// The target that the scan of the first `n` of `targets` has settled on:
/// the index of the nearest of those that `origin` has in sight, the first
/// of them where several are as near.
pub open spec fn nearest_upto<O: Vision, T: Position>(origin: O, targets: Seq<T>, n: nat) -> Option<
    int,
>
    recommends
        n <= targets.len(),
    decreases n,
{
    if n == 0 {
        None
    } else {
        let before = nearest_upto(origin, targets, (n - 1) as nat);
        let seen = origin.sight(targets[n - 1].spec_pos());
        if seen > 0 && (before is None || seen < origin.sight(
            targets[before.unwrap()].spec_pos(),
        )) {
            Some(n - 1)
        } else {
            before
        }
    }
}

/// Position and velocity of the nearest of `targets` that `origin` has in
/// sight, if there is one.
pub open spec fn nearest<O: Vision, T: Position>(origin: O, targets: Seq<T>) -> Option<
    (Vector2, Vector2),
> {
    match nearest_upto(origin, targets, targets.len()) {
        None => None,
        Some(i) => Some((targets[i].spec_pos(), targets[i].spec_vel())),
    }
}

/// `i` is the first of the first `n` of `targets` that `origin` has in
/// sight and that none of them is nearer than.
pub open spec fn is_nearest<O: Vision, T: Position>(
    origin: O,
    targets: Seq<T>,
    n: nat,
    i: int,
) -> bool {
    &&& 0 <= i < n
    &&& origin.sight(targets[i].spec_pos()) > 0
    &&& forall|j: int|
        0 <= j < n && origin.sight(#[trigger] targets[j].spec_pos()) > 0 ==> origin.sight(
            targets[i].spec_pos(),
        ) <= origin.sight(targets[j].spec_pos())
    &&& forall|j: int|
        0 <= j < i && origin.sight(#[trigger] targets[j].spec_pos()) > 0 ==> origin.sight(
            targets[i].spec_pos(),
        ) < origin.sight(targets[j].spec_pos())
}

/// The scan finds nothing exactly where nothing is in sight, and else the
/// first of the nearest targets in sight.
pub proof fn lemma_nearest_upto<O: Vision, T: Position>(origin: O, targets: Seq<T>, n: nat)
    requires
        n <= targets.len(),
    ensures
        nearest_upto(origin, targets, n) is None <==> forall|j: int|
            0 <= j < n ==> origin.sight(#[trigger] targets[j].spec_pos()) <= 0,
        nearest_upto(origin, targets, n) matches Some(i) ==> is_nearest(origin, targets, n, i),
    decreases n,
{
    if n > 0 {
        lemma_nearest_upto(origin, targets, (n - 1) as nat);
        let before = nearest_upto(origin, targets, (n - 1) as nat);
        let seen = origin.sight(targets[n - 1].spec_pos());
        if before is None && seen <= 0 {
            assert forall|j: int| 0 <= j < n implies origin.sight(
                #[trigger] targets[j].spec_pos(),
            ) <= 0 by {
                if j < n - 1 {
                } else {
                    assert(j == n - 1);
                }
            }
        }
    }
}

/// What the aquarium is stocked with: for each of the plants (`pl`), the
/// prey (`pr`) and the predators (`pd`) how many there are, ten times the
/// mass of each and the radius of the disk they start in; for the fish the
/// cosine of half their angle of sight, how far they see and their top
/// speed as well.
#[derive(Clone, Copy, Debug, PartialEq, Eq, Structural)]
pub struct SimParam {
    pub pl_mass: i64,
    pub pr_mass: i64,
    pub pd_mass: i64,
    pub pl_pop: u32,
    pub pr_pop: u32,
    pub pd_pop: u32,
    pub pl_spread: i64,
    pub pr_spread: i64,
    pub pd_spread: i64,
    pub pr_vis_a: i64,
    pub pd_vis_a: i64,
    pub pr_vis_d: i64,
    pub pd_vis_d: i64,
    pub pr_p_speed: i64,
    pub pd_p_speed: i64,
    pub ready: bool,
}

impl SimParam {
    /// Nothing of anything, and not ready.
    pub fn default() -> (r: Self)
        ensures
            r == (SimParam {
                pl_mass: 0,
                pr_mass: 0,
                pd_mass: 0,
                pl_pop: 0,
                pr_pop: 0,
                pd_pop: 0,
                pl_spread: 0,
                pr_spread: 0,
                pd_spread: 0,
                pr_vis_a: 0,
                pd_vis_a: 0,
                pr_vis_d: 0,
                pd_vis_d: 0,
                pr_p_speed: 0,
                pd_p_speed: 0,
                ready: false,
            }),
    {
        SimParam {
            pl_mass: 0,
            pr_mass: 0,
            pd_mass: 0,
            pl_pop: 0,
            pr_pop: 0,
            pd_pop: 0,
            pl_spread: 0,
            pr_spread: 0,
            pd_spread: 0,
            pr_vis_a: 0,
            pd_vis_a: 0,
            pr_vis_d: 0,
            pd_vis_d: 0,
            pr_p_speed: 0,
            pd_p_speed: 0,
            ready: false,
        }
    }
}

/// The point round which the populations start.
pub open spec fn screen_center() -> Vector2 {
    Vector2 { x: 910_000, y: 540_000 }
}

/// `plants` with `n` new plants of mass `mass` behind them, each placed in
/// the disk of radius `spread` round the screen's centre, and the state
/// that sowing them leaves the random source in.
pub open spec fn sown_plants(plants: Seq<Plant>, state: u64, n: nat, spread: int, mass: int) -> (
    Seq<Plant>,
    u64,
)
    decreases n,
{
    if n == 0 {
        (plants, state)
    } else {
        let place = disk_sample(state, at_least_zero(spread), DISK_TRIES as nat);
        let plant = Plant::spec_new(screen_center().spec_add(place.0), mass, place.1);
        sown_plants(plants.push(plant.0), plant.1, (n - 1) as nat, spread, mass)
    }
}

/// `fishes` with `n` new fish behind them, each placed in the disk of
/// radius `spread` round the screen's centre, and the state that this
/// leaves the random source in.
pub open spec fn spawned_fishes(
    fishes: Seq<Fish>,
    state: u64,
    n: nat,
    spread: int,
    mass: int,
    vision_range: i64,
    vision_depth: i64,
    peak_speed: i64,
) -> (Seq<Fish>, u64)
    decreases n,
{
    if n == 0 {
        (fishes, state)
    } else {
        let place = disk_sample(state, at_least_zero(spread), DISK_TRIES as nat);
        let fish = Fish::spec_new(
            screen_center().spec_add(place.0),
            mass,
            vision_range,
            vision_depth,
            peak_speed,
            place.1,
        );
        spawned_fishes(
            fishes.push(fish.0),
            fish.1,
            (n - 1) as nat,
            spread,
            mass,
            vision_range,
            vision_depth,
            peak_speed,
        )
    }
}

/// The sequence without its entry `k`, whose place the last entry takes.
pub open spec fn swap_removed<T>(s: Seq<T>, k: int) -> Seq<T>
    recommends
        0 <= k < s.len(),
{
    s.update(k, s.last()).drop_last()
}

/// The plant after a prey has fed on it for one tick.
pub open spec fn grazed(plant: Plant) -> Plant {
    Plant { health: if plant.health == 0 { 0 } else { (plant.health - 1) as u32 }, ..plant }
}

/// The plants and the random source after plant `k` has had its turn: a
/// plant with a prey within reach is fed on, and dies of it where its
/// health falls under what it needs to live; one with none grows where
/// growth is due, and its offspring join the plants at the end.
pub open spec fn plant_step(
    plants: Seq<Plant>,
    preys: Seq<Fish>,
    state: u64,
    k: int,
    do_grow: bool,
) -> (Seq<Plant>, u64)
    recommends
        0 <= k < plants.len(),
{
    let plant = plants[k];
    if nearest(plant, preys) is Some {
        if grazed(plant).health < SURVIVAL_HEALTH {
            (swap_removed(plants, k), state)
        } else {
            (plants.update(k, grazed(plant)), state)
        }
    } else if do_grow {
        let parent = plant.grown();
        if parent.divides() {
            let first = parent.seedling(state);
            let second = parent.seedling(first.1);
            (plants.update(k, parent.divided()).push(first.0).push(second.0), second.1)
        } else {
            (plants.update(k, parent), state)
        }
    } else {
        (plants, state)
    }
}

/// The plants and the random source after the plants `n - 1` down to `0`
/// have had their turns, in this order.
pub open spec fn plants_pass(
    plants: Seq<Plant>,
    preys: Seq<Fish>,
    state: u64,
    n: nat,
    do_grow: bool,
) -> (Seq<Plant>, u64)
    recommends
        n <= plants.len(),
    decreases n,
{
    if n == 0 {
        (plants, state)
    } else {
        let stepped = plant_step(plants, preys, state, n - 1, do_grow);
        plants_pass(stepped.0, preys, stepped.1, (n - 1) as nat, do_grow)
    }
}

/// The prey and the random source after prey `k` has had its turn: it
/// flees the nearest predator in sight, and is eaten where it is still
/// within the lethal distance of it; with no predator in sight it arrives
/// at the nearest plant in sight; with neither it wanders.
pub open spec fn prey_step(
    preys: Seq<Fish>,
    plants: Seq<Plant>,
    predators: Seq<Fish>,
    state: u64,
    k: int,
) -> (Seq<Fish>, u64)
    recommends
        0 <= k < preys.len(),
{
    let prey = preys[k];
    match nearest(prey, predators) {
        Some(threat) => {
            let fled = prey.spec_flee(threat.0);
            if threat.0.spec_sub(fled.body.position).spec_length() < LETHAL_DISTANCE {
                (swap_removed(preys, k), state)
            } else {
                (preys.update(k, fled), state)
            }
        },
        None => match nearest(prey, plants) {
            Some(food) => (preys.update(k, prey.spec_arrive(food.0)), state),
            None => {
                let wandered = prey.wander_step(state);
                (preys.update(k, wandered.0), wandered.1)
            },
        },
    }
}

/// The prey and the random source after the prey `n - 1` down to `0` have
/// had their turns, in this order.
pub open spec fn preys_pass(
    preys: Seq<Fish>,
    plants: Seq<Plant>,
    predators: Seq<Fish>,
    state: u64,
    n: nat,
) -> (Seq<Fish>, u64)
    recommends
        n <= preys.len(),
    decreases n,
{
    if n == 0 {
        (preys, state)
    } else {
        let stepped = prey_step(preys, plants, predators, state, n - 1);
        preys_pass(stepped.0, plants, predators, stepped.1, (n - 1) as nat)
    }
}

/// The predators and the random source after predator `k` has had its
/// turn: it pursues the nearest prey in sight, and wanders with none.
pub open spec fn predator_step(predators: Seq<Fish>, preys: Seq<Fish>, state: u64, k: int) -> (
    Seq<Fish>,
    u64,
)
    recommends
        0 <= k < predators.len(),
{
    let predator = predators[k];
    match nearest(predator, preys) {
        Some(quarry) => (predators.update(k, predator.spec_pursuit(quarry.0, quarry.1)), state),
        None => {
            let wandered = predator.wander_step(state);
            (predators.update(k, wandered.0), wandered.1)
        },
    }
}

/// The predators and the random source after the predators `n - 1` down
/// to `0` have had their turns, in this order.
pub open spec fn predators_pass(predators: Seq<Fish>, preys: Seq<Fish>, state: u64, n: nat) -> (
    Seq<Fish>,
    u64,
)
    recommends
        n <= predators.len(),
    decreases n,
{
    if n == 0 {
        (predators, state)
    } else {
        let stepped = predator_step(predators, preys, state, n - 1);
        predators_pass(stepped.0, preys, stepped.1, (n - 1) as nat)
    }
}

/// Among no targets there is no nearest one.
pub proof fn lemma_nearest_of_none<O: Vision, T: Position>(origin: O, targets: Seq<T>)
    requires
        targets.len() == 0,
    ensures
        nearest(origin, targets) is None,
{
}

/// A predator with no prey about wanders.
pub proof fn lemma_predator_without_prey_wanders(
    predators: Seq<Fish>,
    preys: Seq<Fish>,
    state: u64,
    k: int,
)
    requires
        0 <= k < predators.len(),
        preys.len() == 0,
    ensures
        predator_step(predators, preys, state, k).0[k] == predators[k].wander_step(state).0,
        predator_step(predators, preys, state, k).1 == predators[k].wander_step(state).1,
{
    lemma_nearest_of_none(predators[k], preys);
}

/// A prey at rest that has a predator in sight, the nearest of them not
/// within the lethal distance: after its turn it is still there, fleeing
/// whatever plants it sees, and no nearer to that predator than it was.
pub proof fn lemma_fleeing_prey_survives(
    preys: Seq<Fish>,
    plants: Seq<Plant>,
    predators: Seq<Fish>,
    state: u64,
    k: int,
    threat: Vector2,
)
    requires
        0 <= k < preys.len(),
        preys[k].body.velocity == Vector2::spec_zero(),
        preys[k].body.mass >= MASS_FLOOR,
        preys[k].max_force >= 0,
        nearest(preys[k], predators) matches Some(found) && found.0 == threat,
        threat.spec_sub(preys[k].body.position).spec_length() >= LETHAL_DISTANCE,
    ensures
        prey_step(preys, plants, predators, state, k).0.len() == preys.len(),
        prey_step(preys, plants, predators, state, k).1 == state,
        prey_step(preys, plants, predators, state, k).0[k] == preys[k].spec_flee(threat),
        prey_step(preys, plants, predators, state, k).0[k].behaviour == FishBehaviour::Fleeing,
        threat.spec_sub(
            prey_step(preys, plants, predators, state, k).0[k].body.position,
        ).spec_length() >= threat.spec_sub(preys[k].body.position).spec_length(),
{
    lemma_flee_from_rest_gains_distance(preys[k], threat);
}

/// A lone prey at rest at the origin, with a top speed of two units or more
/// and no predator about, that sees the one plant fifty units ahead of it
/// on the first axis: after the pass it is on its way to the plant, further
/// along the axis than it was, whatever its mass.
pub proof fn lemma_lone_prey_heads_for_the_plant(
    preys: Seq<Fish>,
    plants: Seq<Plant>,
    predators: Seq<Fish>,
    state: u64,
)
    requires
        preys.len() == 1,
        plants.len() == 1,
        predators.len() == 0,
        preys[0].body.position == Vector2::spec_zero(),
        preys[0].body.velocity == Vector2::spec_zero(),
        preys[0].body.mass >= MASS_FLOOR,
        preys[0].max_force > 0,
        preys[0].current_speed >= 0,
        preys[0].peak_speed >= 2 * SCALE,
        plants[0].body.position == (Vector2 { x: 50_000, y: 0 }),
        preys[0].spec_in_sight(plants[0].body.position) > 0,
    ensures
        preys_pass(preys, plants, predators, state, 1).0.len() == 1,
        preys_pass(preys, plants, predators, state, 1).0[0] == preys[0].spec_arrive(
            plants[0].body.position,
        ),
        preys_pass(preys, plants, predators, state, 1).0[0].behaviour == FishBehaviour::Arriving,
        preys_pass(preys, plants, predators, state, 1).0[0].body.position.x > 0,
        preys_pass(preys, plants, predators, state, 1).0[0].body.position.y == 0,
        preys_pass(preys, plants, predators, state, 1).1 == state,
{
    reveal_with_fuel(preys_pass, 2);
    reveal_with_fuel(nearest_upto, 2);
    let prey = preys[0];
    lemma_nearest_of_none(prey, predators);
    assert(nearest(prey, plants) == Some((plants[0].body.position, Vector2::spec_zero())));
    let peak = prey.peak_speed as int;
    assert(peak * 50_000 >= 100_000_000) by (nonlinear_arith)
        requires
            peak >= 2000,
    ;
    lemma_tdiv(peak * 50_000, 100_000);
    assert(arrival_speed(peak, 50_000) >= SCALE);
    lemma_arrive_from_rest_moves(prey, 50_000);
}

/// The turn of plant `k` leaves the plants before it as they were: each
/// of them is there, and untouched, when its own turn comes.
pub proof fn lemma_plant_step_keeps_the_rest(
    plants: Seq<Plant>,
    preys: Seq<Fish>,
    state: u64,
    k: int,
    do_grow: bool,
)
    requires
        0 <= k < plants.len(),
    ensures
        plant_step(plants, preys, state, k, do_grow).0.len() >= k,
        forall|j: int|
            0 <= j < k ==> (#[trigger] plant_step(plants, preys, state, k, do_grow).0[j])
                == plants[j],
{
}

/// The turn of prey `k` leaves the prey before it as they were.
pub proof fn lemma_prey_step_keeps_the_rest(
    preys: Seq<Fish>,
    plants: Seq<Plant>,
    predators: Seq<Fish>,
    state: u64,
    k: int,
)
    requires
        0 <= k < preys.len(),
    ensures
        prey_step(preys, plants, predators, state, k).0.len() >= k,
        forall|j: int|
            0 <= j < k ==> (#[trigger] prey_step(preys, plants, predators, state, k).0[j])
                == preys[j],
{
}

/// The turn of predator `k` changes no predator but that one.
pub proof fn lemma_predator_step_keeps_the_rest(
    predators: Seq<Fish>,
    preys: Seq<Fish>,
    state: u64,
    k: int,
)
    requires
        0 <= k < predators.len(),
    ensures
        predator_step(predators, preys, state, k).0.len() == predators.len(),
        forall|j: int|
            0 <= j < predators.len() && j != k ==> (#[trigger] predator_step(
                predators,
                preys,
                state,
                k,
            ).0[j]) == predators[j],
{
}

/// Every plant of `plants` is well-formed.
pub open spec fn plants_wf(plants: Seq<Plant>) -> bool {
    forall|j: int| 0 <= j < plants.len() ==> (#[trigger] plants[j]).wf()
}

/// Every fish of `fishes` is well-formed.
pub open spec fn fishes_wf(fishes: Seq<Fish>) -> bool {
    forall|j: int| 0 <= j < fishes.len() ==> (#[trigger] fishes[j]).wf()
}

/// The three populations of the ecosystem, the shift of the screen that
/// shows them, the random source that the agents draw from, and the count
/// of ticks since the plants last grew.
pub struct Aquarium {
    pub offset_window: Vector2,
    pub offset_zoom: i64,
    pub plants: Vec<Plant>,
    pub preys: Vec<Fish>,
    pub predators: Vec<Fish>,
    pub rng: Rng,
    pub ticks: u32,
}

impl Aquarium {
    /// An empty aquarium whose random source starts at `seed`.
    pub fn create(seed: u64) -> (r: Self)
        ensures
            r.offset_window == Vector2::spec_zero(),
            r.offset_zoom == 0,
            r.plants@.len() == 0,
            r.preys@.len() == 0,
            r.predators@.len() == 0,
            r.rng.state == seed,
            r.ticks == 0,
    {
        Self {
            offset_window: Vector2::default(),
            offset_zoom: 0,
            plants: Vec::new(),
            preys: Vec::new(),
            predators: Vec::new(),
            rng: Rng::new(seed),
            ticks: 0,
        }
    }

    /// The nearest of `vec` that `origin` has in sight: its position and
    /// its velocity. Of several that are as near, the first is taken.
    pub fn check_proximity<O: Vision, T: Position>(origin: &O, vec: &Vec<T>) -> (r: Option<
        (Vector2, Vector2),
    >)
        ensures
            r == nearest(*origin, vec@),
            r is None <==> forall|j: int|
                0 <= j < vec@.len() ==> origin.sight(#[trigger] vec@[j].spec_pos()) <= 0,
            r is Some ==> exists|i: int|
                is_nearest(*origin, vec@, vec@.len(), i) && r == Some(
                    (vec@[i].spec_pos(), vec@[i].spec_vel()),
                ),
    {
        let mut closest_tgt: Option<(Vector2, Vector2)> = None;
        let mut min_dist: i64 = 0;
        let mut k: usize = 0;
        while k < vec.len()
            invariant
                k <= vec@.len(),
                closest_tgt is None <==> nearest_upto(*origin, vec@, k as nat) is None,
                nearest_upto(*origin, vec@, k as nat) matches Some(i) ==> {
                    &&& 0 <= i < k
                    &&& min_dist == origin.sight(vec@[i].spec_pos())
                    &&& closest_tgt == Some((vec@[i].spec_pos(), vec@[i].spec_vel()))
                },
            decreases vec@.len() - k,
        {
            let tgt_dist_sqr: i64 = origin.in_sight(vec[k].pos());
            proof {
                lemma_nearest_upto(*origin, vec@, k as nat);
            }
            if tgt_dist_sqr > 0 && (closest_tgt.is_none() || tgt_dist_sqr < min_dist) {
                min_dist = tgt_dist_sqr;
                closest_tgt = Some((vec[k].pos(), vec[k].vel()));
            }
            k = k + 1;
        }
        proof {
            lemma_nearest_upto(*origin, vec@, vec@.len());
        }
        closest_tgt
    }

    /// Moves the screen by one step for each direction that is held.
    pub fn process_screen_sliding(&mut self, arrows: &ScreenControl)
        ensures
            final(self).offset_window == old(self).offset_window.spec_add(arrows.shift()),
            final(self).offset_zoom == old(self).offset_zoom,
            final(self).plants == old(self).plants,
            final(self).preys == old(self).preys,
            final(self).predators == old(self).predators,
            final(self).rng == old(self).rng,
            final(self).ticks == old(self).ticks,
    {
        let mut dx: i64 = 0;
        let mut dy: i64 = 0;
        if arrows.up {
            dy = dy + PAN_SPEED;
        }
        if arrows.down {
            dy = dy - PAN_SPEED;
        }
        if arrows.right {
            dx = dx - PAN_SPEED;
        }
        if arrows.left {
            dx = dx + PAN_SPEED;
        }
        self.offset_window = self.offset_window.add(Vector2::new(dx, dy));
    }

    /// Every agent of the three populations is well-formed.
    pub open spec fn wf(&self) -> bool {
        &&& plants_wf(self.plants@)
        &&& fishes_wf(self.preys@)
        &&& fishes_wf(self.predators@)
    }

    /// Gives each plant its turn, from the last to the first: see
    /// `plant_step`. A plant that dies leaves its place to the last of the
    /// plants, which has had its turn or is a newcomer of this pass.
    pub fn process_plants(&mut self, do_grow: bool)
        ensures
            final(self).plants@ == plants_pass(
                old(self).plants@,
                old(self).preys@,
                old(self).rng.state,
                old(self).plants@.len(),
                do_grow,
            ).0,
            final(self).rng.state == plants_pass(
                old(self).plants@,
                old(self).preys@,
                old(self).rng.state,
                old(self).plants@.len(),
                do_grow,
            ).1,
            final(self).preys == old(self).preys,
            final(self).predators == old(self).predators,
            final(self).offset_window == old(self).offset_window,
            final(self).offset_zoom == old(self).offset_zoom,
            final(self).ticks == old(self).ticks,
            old(self).wf() ==> final(self).wf(),
    {
        let mut i: usize = self.plants.len();
        while i != 0
            invariant
                i <= self.plants@.len(),
                plants_pass(self.plants@, self.preys@, self.rng.state, i as nat, do_grow)
                    == plants_pass(
                    old(self).plants@,
                    old(self).preys@,
                    old(self).rng.state,
                    old(self).plants@.len(),
                    do_grow,
                ),
                self.preys == old(self).preys,
                self.predators == old(self).predators,
                self.offset_window == old(self).offset_window,
                self.offset_zoom == old(self).offset_zoom,
                self.ticks == old(self).ticks,
                old(self).wf() ==> self.wf(),
            decreases i,
        {
            i -= 1;
            let mut plant: Plant = self.plants[i];
            let closest_prey = Aquarium::check_proximity(&plant, &self.preys);
            match closest_prey {
                None => {
                    if do_grow {
                        let rootlings = plant.grow(&mut self.rng);
                        self.plants[i] = plant;
                        match rootlings {
                            None => {},
                            Some((rootling_1, rootling_2)) => {
                                self.plants.push(rootling_1);
                                self.plants.push(rootling_2);
                            },
                        }
                    }
                },
                Some(_) => {
                    plant.health = if plant.health == 0 { 0 } else { plant.health - 1 };
                    if plant.health < SURVIVAL_HEALTH {
                        self.plants.swap_remove(i);
                    } else {
                        self.plants[i] = plant;
                    }
                },
            }
        }
    }

    /// Gives each prey its turn, from the last to the first: see
    /// `prey_step`.
    pub fn process_preys(&mut self)
        ensures
            final(self).preys@ == preys_pass(
                old(self).preys@,
                old(self).plants@,
                old(self).predators@,
                old(self).rng.state,
                old(self).preys@.len(),
            ).0,
            final(self).rng.state == preys_pass(
                old(self).preys@,
                old(self).plants@,
                old(self).predators@,
                old(self).rng.state,
                old(self).preys@.len(),
            ).1,
            final(self).preys@.len() <= old(self).preys@.len(),
            final(self).plants == old(self).plants,
            final(self).predators == old(self).predators,
            final(self).offset_window == old(self).offset_window,
            final(self).offset_zoom == old(self).offset_zoom,
            final(self).ticks == old(self).ticks,
            old(self).wf() ==> final(self).wf(),
    {
        let mut i: usize = self.preys.len();
        while i != 0
            invariant
                i <= self.preys@.len(),
                self.preys@.len() <= old(self).preys@.len(),
                preys_pass(self.preys@, self.plants@, self.predators@, self.rng.state, i as nat)
                    == preys_pass(
                    old(self).preys@,
                    old(self).plants@,
                    old(self).predators@,
                    old(self).rng.state,
                    old(self).preys@.len(),
                ),
                self.plants == old(self).plants,
                self.predators == old(self).predators,
                self.offset_window == old(self).offset_window,
                self.offset_zoom == old(self).offset_zoom,
                self.ticks == old(self).ticks,
                old(self).wf() ==> self.wf(),
            decreases i,
        {
            i -= 1;
            let mut prey: Fish = self.preys[i];
            let closest_plant = Aquarium::check_proximity(&prey, &self.plants);
            let closest_predator = Aquarium::check_proximity(&prey, &self.predators);
            match closest_predator {
                Some((predator_pos, _)) => {
                    prey.flee(predator_pos);
                    if predator_pos.sub(prey.pos()).length() < LETHAL_DISTANCE {
                        self.preys.swap_remove(i);
                    } else {
                        self.preys[i] = prey;
                    }
                },
                None => {
                    match closest_plant {
                        Some((plant_pos, _)) => {
                            prey.arrive(plant_pos);
                        },
                        None => {
                            prey.wander(&mut self.rng);
                        },
                    }
                    self.preys[i] = prey;
                },
            }
        }
    }

    /// Gives each predator its turn, from the last to the first: see
    /// `predator_step`.
    pub fn process_predators(&mut self)
        ensures
            final(self).predators@ == predators_pass(
                old(self).predators@,
                old(self).preys@,
                old(self).rng.state,
                old(self).predators@.len(),
            ).0,
            final(self).rng.state == predators_pass(
                old(self).predators@,
                old(self).preys@,
                old(self).rng.state,
                old(self).predators@.len(),
            ).1,
            final(self).predators@.len() == old(self).predators@.len(),
            final(self).plants == old(self).plants,
            final(self).preys == old(self).preys,
            final(self).offset_window == old(self).offset_window,
            final(self).offset_zoom == old(self).offset_zoom,
            final(self).ticks == old(self).ticks,
            old(self).wf() ==> final(self).wf(),
    {
        let mut i: usize = self.predators.len();
        while i != 0
            invariant
                i <= self.predators@.len(),
                self.predators@.len() == old(self).predators@.len(),
                predators_pass(self.predators@, self.preys@, self.rng.state, i as nat)
                    == predators_pass(
                    old(self).predators@,
                    old(self).preys@,
                    old(self).rng.state,
                    old(self).predators@.len(),
                ),
                self.plants == old(self).plants,
                self.preys == old(self).preys,
                self.offset_window == old(self).offset_window,
                self.offset_zoom == old(self).offset_zoom,
                self.ticks == old(self).ticks,
                old(self).wf() ==> self.wf(),
            decreases i,
        {
            i -= 1;
            let mut predator: Fish = self.predators[i];
            let closest_prey = Aquarium::check_proximity(&predator, &self.preys);
            match closest_prey {
                Some((prey_pos, prey_vel)) => {
                    predator.pursuit(prey_pos, prey_vel);
                },
                None => {
                    predator.wander(&mut self.rng);
                },
            }
            self.predators[i] = predator;
        }
    }

    /// Adds `count` fish to `fishes`: see `spawned_fishes`.
    fn spawn(
        fishes: &mut Vec<Fish>,
        rng: &mut Rng,
        count: u32,
        spread: i64,
        mass: i64,
        vision_range: i64,
        vision_depth: i64,
        peak_speed: i64,
    )
        ensures
            final(fishes)@ == spawned_fishes(
                old(fishes)@,
                old(rng).state,
                count as nat,
                spread as int,
                mass as int,
                vision_range,
                vision_depth,
                peak_speed,
            ).0,
            final(rng).state == spawned_fishes(
                old(fishes)@,
                old(rng).state,
                count as nat,
                spread as int,
                mass as int,
                vision_range,
                vision_depth,
                peak_speed,
            ).1,
            fishes_wf(old(fishes)@) ==> fishes_wf(final(fishes)@),
    {
        let center = Vector2::new(910_000, 540_000);
        let mut left: u32 = count;
        while left > 0
            invariant
                center == screen_center(),
                spawned_fishes(
                    fishes@,
                    rng.state,
                    left as nat,
                    spread as int,
                    mass as int,
                    vision_range,
                    vision_depth,
                    peak_speed,
                ) == spawned_fishes(
                    old(fishes)@,
                    old(rng).state,
                    count as nat,
                    spread as int,
                    mass as int,
                    vision_range,
                    vision_depth,
                    peak_speed,
                ),
                fishes_wf(old(fishes)@) ==> fishes_wf(fishes@),
            decreases left,
        {
            let new_pos = center.add(Vector2::random_in_radius(spread, rng));
            fishes.push(Fish::new(new_pos, mass, vision_range, vision_depth, peak_speed, rng));
            left = left - 1;
        }
    }

    /// Stocks the aquarium: the plants first, then the prey, then the
    /// predators, each with a tenth of the mass that `parameters` names.
    pub fn init(&mut self, parameters: &SimParam)
        ensures
            ({
                let plants = sown_plants(
                    old(self).plants@,
                    old(self).rng.state,
                    parameters.pl_pop as nat,
                    parameters.pl_spread as int,
                    mul_div(parameters.pl_mass as int, 1, 10),
                );
                let preys = spawned_fishes(
                    old(self).preys@,
                    plants.1,
                    parameters.pr_pop as nat,
                    parameters.pr_spread as int,
                    mul_div(parameters.pr_mass as int, 1, 10),
                    parameters.pr_vis_a,
                    parameters.pr_vis_d,
                    parameters.pr_p_speed,
                );
                let predators = spawned_fishes(
                    old(self).predators@,
                    preys.1,
                    parameters.pd_pop as nat,
                    parameters.pd_spread as int,
                    mul_div(parameters.pd_mass as int, 1, 10),
                    parameters.pd_vis_a,
                    parameters.pd_vis_d,
                    parameters.pd_p_speed,
                );
                &&& final(self).plants@ == plants.0
                &&& final(self).preys@ == preys.0
                &&& final(self).predators@ == predators.0
                &&& final(self).rng.state == predators.1
            }),
            final(self).offset_window == old(self).offset_window,
            final(self).offset_zoom == old(self).offset_zoom,
            final(self).ticks == old(self).ticks,
            old(self).wf() ==> final(self).wf(),
    {
        let center = Vector2::new(910_000, 540_000);
        let plant_mass: i64 = mul_div_fixed(parameters.pl_mass, 1, 10);
        let mut left: u32 = parameters.pl_pop;
        while left > 0
            invariant
                center == screen_center(),
                sown_plants(
                    self.plants@,
                    self.rng.state,
                    left as nat,
                    parameters.pl_spread as int,
                    plant_mass as int,
                ) == sown_plants(
                    old(self).plants@,
                    old(self).rng.state,
                    parameters.pl_pop as nat,
                    parameters.pl_spread as int,
                    plant_mass as int,
                ),
                self.preys == old(self).preys,
                self.predators == old(self).predators,
                self.offset_window == old(self).offset_window,
                self.offset_zoom == old(self).offset_zoom,
                self.ticks == old(self).ticks,
                old(self).wf() ==> self.wf(),
            decreases left,
        {
            let new_pos = center.add(
                Vector2::random_in_radius(parameters.pl_spread, &mut self.rng),
            );
            let plant = Plant::new(new_pos, plant_mass, &mut self.rng);
            self.plants.push(plant);
            left = left - 1;
        }
        Aquarium::spawn(
            &mut self.preys,
            &mut self.rng,
            parameters.pr_pop,
            parameters.pr_spread,
            mul_div_fixed(parameters.pr_mass, 1, 10),
            parameters.pr_vis_a,
            parameters.pr_vis_d,
            parameters.pr_p_speed,
        );
        Aquarium::spawn(
            &mut self.predators,
            &mut self.rng,
            parameters.pd_pop,
            parameters.pd_spread,
            mul_div_fixed(parameters.pd_mass, 1, 10),
            parameters.pd_vis_a,
            parameters.pd_vis_d,
            parameters.pd_p_speed,
        );
    }

    /// One tick of the ecosystem: the plants, then the prey, then the
    /// predators have their turns, and the screen is moved. The plants grow
    /// in the tick that follows each full growth period.
    pub fn tick(&mut self, arrows: &ScreenControl)
        ensures
            ({
                let ticks = if old(self).ticks == u32::MAX {
                    u32::MAX as int
                } else {
                    old(self).ticks + 1
                };
                let plants = plants_pass(
                    old(self).plants@,
                    old(self).preys@,
                    old(self).rng.state,
                    old(self).plants@.len(),
                    ticks > GROWTH_PERIOD,
                );
                let preys = preys_pass(
                    old(self).preys@,
                    plants.0,
                    old(self).predators@,
                    plants.1,
                    old(self).preys@.len(),
                );
                let predators = predators_pass(
                    old(self).predators@,
                    preys.0,
                    preys.1,
                    old(self).predators@.len(),
                );
                &&& final(self).plants@ == plants.0
                &&& final(self).preys@ == preys.0
                &&& final(self).predators@ == predators.0
                &&& final(self).rng.state == predators.1
                &&& final(self).ticks == if ticks > GROWTH_PERIOD {
                    0
                } else {
                    ticks
                }
            }),
            final(self).offset_window == old(self).offset_window.spec_add(arrows.shift()),
            final(self).offset_zoom == old(self).offset_zoom,
            final(self).preys@.len() <= old(self).preys@.len(),
            final(self).predators@.len() == old(self).predators@.len(),
            old(self).wf() ==> final(self).wf(),
    {
        self.ticks = if self.ticks == u32::MAX { u32::MAX } else { self.ticks + 1 };
        let time_act: bool = self.ticks > GROWTH_PERIOD;
        self.process_plants(time_act);
        self.process_preys();
        self.process_predators();
        self.process_screen_sliding(arrows);
        if time_act {
            self.ticks = 0;
        }
    }
}

} // verus!
