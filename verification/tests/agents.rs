use aquarium::bodies::{pixel_of, Body, Position, Rect, Vision};
use aquarium::fishes::{Fish, FishBehaviour, Plant, OUT_OF_SIGHT};
use aquarium::random::Rng;
use aquarium::vectors::Vector2;

fn still_fish(x: i64, y: i64, vision_range: i64) -> Fish {
    let mut rng = Rng::new(1);
    let mut fish = Fish::new(Vector2::new(x, y), 20_000, vision_range, 800_000, 5_000, &mut rng);
    fish.body.velocity = Vector2::new(0, 0);
    fish.body.velocity_norm = Vector2::new(0, 0);
    fish
}

#[test]
fn size_grows_with_the_root_of_the_mass() {
    assert_eq!(Body::get_size(25_000), 22);
    assert_eq!(Body::get_size(20_000), 20);
    assert_eq!(Body::get_size(100_000), 45);
    assert_eq!(Body::get_size(4_000), 9);
    assert_eq!(Body::get_size(4_938), 9);
    assert_eq!(Body::get_size(4_939), 10);
    assert_eq!(Body::get_size(1), 0);
    assert_eq!(Body::get_size(i64::MAX), 432_172_747);
    assert_eq!(Body::get_size(0), 0);
    assert_eq!(Body::get_size(-4_000), 0);
}

#[test]
fn body_starts_with_a_heading_of_at_most_one_unit() {
    let mut rng = Rng::new(5);
    let body = Body::new(25_000, Vector2::new(1000, 2000), &mut rng);
    assert_eq!(body.mass, 25_000);
    assert_eq!(body.position, Vector2::new(1000, 2000));
    assert!(body.velocity.length() <= 1000);
    assert_eq!(body.velocity_norm, body.velocity.norm());
    assert_ne!(rng.state, 5);
}

#[test]
fn mass_never_falls_under_its_floor() {
    let mut rng = Rng::new(5);
    let mut body = Body::new(1000, Vector2::new(0, 0), &mut rng);
    body.shrink(5000);
    assert_eq!(body.mass, 1);
    body.grow(999);
    assert_eq!(body.mass, 1000);
    body.grow(-2000);
    assert_eq!(body.mass, 1);
    body.grow(i64::MAX);
    assert_eq!(body.mass, i64::MAX);
    assert_eq!(Body::new(-7, Vector2::new(0, 0), &mut rng).mass, 1);
}

#[test]
fn rectangles_are_centred_on_the_body() {
    let body = Body {
        mass: 25_000,
        position: Vector2::new(100_000, 50_000),
        velocity: Vector2::new(2000, 0),
        velocity_norm: Vector2::new(1000, 0),
    };
    assert_eq!(body.rect(Vector2::new(0, 0)), Rect { x: 89, y: 39, w: 22, h: 22 });
    assert_eq!(body.rect(Vector2::new(10_000, -9_000)), Rect { x: 99, y: 30, w: 22, h: 22 });
    assert_eq!(body.collision_rect(Vector2::new(0, 0)), Rect { x: 100, y: 44, w: 11, h: 11 });
    assert_eq!(pixel_of(-1_500), -1);
    assert_eq!(pixel_of(1_999), 1);
    assert_eq!(pixel_of(i64::MAX), i32::MAX);
    assert_eq!(pixel_of(i64::MIN), i32::MIN);
}

#[test]
fn new_fish_is_still() {
    let mut rng = Rng::new(3);
    let fish = Fish::new(Vector2::new(1000, 2000), 20_000, 500, 800_000, 6_000, &mut rng);
    assert_eq!(fish.behaviour, FishBehaviour::Still);
    assert_eq!(fish.health, 100);
    assert_eq!(fish.max_force, 10_000);
    assert_eq!(fish.peak_speed, 6_000);
    assert_eq!(fish.default_speed, 2_000);
    assert_eq!(fish.current_speed, 0);
    assert_eq!(fish.vision_range, 500);
    assert_eq!(fish.vision_depth, 800_000);
    assert_eq!(fish.pos(), Vector2::new(1000, 2000));
    assert_eq!(fish.body.mass, 20_000);
    assert_eq!(fish.desires.flocking.separation_w, 1000);
}

#[test]
fn steer_leaves_the_fish_alone_in_the_dead_zone() {
    let mut fish = still_fish(5000, 5000, 0);
    fish.body.velocity = Vector2::new(300, -400);
    fish.body.velocity_norm = fish.body.velocity.norm();
    let before = fish;
    fish.steer(Vector2::new(5000, 5000), 5000);
    assert_eq!(fish, before);
    fish.steer(Vector2::new(5999, 5000), 5000);
    assert_eq!(fish, before);
    fish.steer(Vector2::new(6000, 5000), 5000);
    assert_ne!(fish, before);
}

#[test]
fn steer_ramps_the_speed_and_moves_the_fish() {
    let mut fish = still_fish(0, 0, 0);
    fish.steer(Vector2::new(2500, 0), 2500);
    assert_eq!(fish.current_speed, 250);
    assert_eq!(fish.body.velocity, Vector2::new(125, 0));
    assert_eq!(fish.body.position, Vector2::new(125, 0));
    assert_eq!(fish.body.velocity_norm, Vector2::new(1000, 0));
    fish.current_speed = 4000;
    fish.steer(Vector2::new(40_000, 0), 2500);
    assert_eq!(fish.current_speed, 3750);
    assert_eq!(fish.body.velocity, Vector2::new(625, 0));
    assert_eq!(fish.body.position, Vector2::new(750, 0));
}

#[test]
fn seek_and_flee_mirror_each_other() {
    let mut seeker = still_fish(0, 0, 0);
    let mut fleer = still_fish(0, 0, 0);
    seeker.seek(Vector2::new(30_000, 40_000));
    fleer.flee(Vector2::new(30_000, 40_000));
    assert_eq!(seeker.behaviour, FishBehaviour::Seeking);
    assert_eq!(fleer.behaviour, FishBehaviour::Fleeing);
    assert_eq!(seeker.body.velocity, Vector2::new(300, 400));
    assert_eq!(fleer.body.velocity, Vector2::new(-300, -400));
    assert_eq!(seeker.body.position, fleer.body.position.neg());
    assert_eq!(seeker.current_speed, 500);
}

#[test]
fn arrive_slows_down_near_the_target() {
    let mut speeds = vec![];
    for distance in [200_000, 100_000, 80_000, 50_000, 20_000] {
        let mut fish = still_fish(0, 0, 0);
        fish.arrive(Vector2::new(distance, 0));
        assert_eq!(fish.behaviour, FishBehaviour::Arriving);
        speeds.push(fish.current_speed);
    }
    assert_eq!(speeds, vec![500, 500, 400, 250, 100]);
    let mut near = still_fish(0, 0, 0);
    let before = near.body;
    near.arrive(Vector2::new(5_000, 0));
    assert_eq!(near.behaviour, FishBehaviour::Arriving);
    assert_eq!(near.body, before);
    assert_eq!(near.current_speed, 0);
}

#[test]
fn desired_speed_falls_with_the_distance() {
    assert_eq!(Fish::desired_speed(5_000, 200_000), 5_000);
    assert_eq!(Fish::desired_speed(5_000, 100_000), 5_000);
    assert_eq!(Fish::desired_speed(5_000, 80_000), 4_000);
    assert_eq!(Fish::desired_speed(5_000, 50_000), 2_500);
    assert_eq!(Fish::desired_speed(5_000, 5_000), 250);
    assert_eq!(Fish::desired_speed(5_000, 19), 0);
    assert_eq!(Fish::desired_speed(5_000, 0), 0);
    let mut last = -1;
    for distance in (0..100_000).step_by(20) {
        let speed = Fish::desired_speed(5_000, distance);
        assert!(speed > last);
        last = speed;
    }
}

#[test]
fn fleeing_from_rest_never_comes_nearer() {
    let threats = [
        Vector2::new(10_000, 0),
        Vector2::new(-7_000, 7_100),
        Vector2::new(12_345, -40_000),
        Vector2::new(-1, -10_000),
        Vector2::new(49_000, 9_000),
    ];
    for threat in threats {
        for mass in [1, 20_000, 3_000_000, i64::MAX] {
            let mut fish = still_fish(0, 0, 0);
            fish.body.mass = mass;
            let before = threat.sub(fish.pos()).length_sqr_wide();
            fish.flee(threat);
            assert_eq!(fish.behaviour, FishBehaviour::Fleeing);
            assert!(threat.sub(fish.pos()).length_sqr_wide() > before);
        }
    }
}

#[test]
fn speed_after_arriving_rises_with_the_distance() {
    let mut last = 0;
    for distance in [20_000, 40_000, 60_000, 80_000, 100_000] {
        let mut fish = still_fish(0, 0, 0);
        fish.arrive(Vector2::new(0, distance));
        assert!(fish.current_speed > last);
        assert!(fish.body.velocity.length() <= fish.current_speed);
        last = fish.current_speed;
    }
    assert_eq!(last, 500);
}

#[test]
fn pursuit_aims_ahead_of_the_target() {
    let mut hunter = still_fish(0, 0, 0);
    hunter.pursuit(Vector2::new(0, 100_000), Vector2::new(3000, 0));
    assert_eq!(hunter.behaviour, FishBehaviour::Seeking);
    assert!(hunter.body.velocity.x > 0 && hunter.body.velocity.y > 0);
    let mut runner = still_fish(0, 0, 0);
    runner.evade(Vector2::new(0, 100_000), Vector2::new(3000, 0));
    assert_eq!(runner.behaviour, FishBehaviour::Fleeing);
    assert_eq!(runner.body.velocity, hunter.body.velocity.neg());
}

#[test]
fn wander_starts_from_the_velocity_and_then_drifts() {
    let mut rng = Rng::new(11);
    let mut fish = still_fish(0, 0, 0);
    fish.body.velocity = Vector2::new(300, 400);
    fish.body.velocity_norm = fish.body.velocity.norm();
    let seed = rng.state;
    fish.wander(&mut rng);
    assert_eq!(fish.behaviour, FishBehaviour::Wandering);
    assert_eq!(fish.desires.wander_vector, Vector2::new(6000, 8000));
    assert_eq!(rng.state, seed);
    fish.wander(&mut rng);
    assert_ne!(rng.state, seed);
    assert!(fish.desires.wander_vector.sub(Vector2::new(6000, 8000)).length() <= 5000);
    assert_eq!(fish.behaviour, FishBehaviour::Wandering);
}

#[test]
fn fish_sees_inside_its_cone_and_depth_only() {
    let mut fish = still_fish(0, 0, 500);
    fish.body.velocity = Vector2::new(2000, 0);
    fish.body.velocity_norm = Vector2::new(1000, 0);
    assert_eq!(fish.in_sight(Vector2::new(50_000, 0)), 2_500_000);
    assert_eq!(fish.in_sight(Vector2::new(30_000, 40_000)), 2_500_000);
    assert_eq!(fish.in_sight(Vector2::new(0, 50_000)), OUT_OF_SIGHT);
    assert_eq!(fish.in_sight(Vector2::new(-50_000, 0)), OUT_OF_SIGHT);
    assert_eq!(fish.in_sight(Vector2::new(800_000, 0)), 640_000_000);
    assert_eq!(fish.in_sight(Vector2::new(800_001, 0)), OUT_OF_SIGHT);
    assert_eq!(OUT_OF_SIGHT, -1000);
    fish.vision_depth = 1_001;
    assert_eq!(fish.in_sight(Vector2::new(1_001, 0)), 1_003);
    assert_eq!(fish.in_sight(Vector2::new(1_001, 22)), OUT_OF_SIGHT);
    assert_eq!(fish.in_sight(Vector2::new(20, 0)), 1);
    assert_eq!(fish.in_sight(Vector2::new(0, 0)), OUT_OF_SIGHT);
    fish.vision_range = 0;
    assert_eq!(fish.in_sight(Vector2::new(0, 0)), 0);
    fish.vision_depth = -1_001;
    assert_eq!(fish.in_sight(Vector2::new(1_001, 0)), 1_003);
    assert_eq!(fish.vel(), Vector2::new(2000, 0));
}

#[test]
fn flock_is_gathered_and_spent() {
    let mut fish = still_fish(0, 0, 0);
    let neighbor = Body {
        mass: 20_000,
        position: Vector2::new(2000, 0),
        velocity: Vector2::new(0, 3000),
        velocity_norm: Vector2::new(0, 1000),
    };
    fish.ponder_flock(neighbor);
    assert_eq!(fish.desires.flocking.separation_vec, Vector2::new(-250, 0));
    assert_eq!(fish.desires.flocking.cohesion_vec, Vector2::new(2000, 0));
    assert_eq!(fish.desires.flocking.alignment_vec, Vector2::new(0, 1000));
    fish.compute_flock();
    assert_eq!(fish.desires.flocking.separation_vec, Vector2::new(0, 0));
    assert_eq!(fish.desires.flocking.cohesion_vec, Vector2::new(0, 0));
    assert_eq!(fish.desires.flocking.alignment_vec, Vector2::new(0, 0));
    assert_eq!(fish.desires.flocking.cohesion_w, 1000);
    assert_eq!(fish.body.velocity, Vector2::new(0, 50));
    assert_eq!(fish.current_speed, 500);
}

#[test]
fn far_neighbour_still_pushes() {
    let mut fish = still_fish(0, 0, 0);
    let neighbor = Body {
        mass: 20_000,
        position: Vector2::new(40_000, -30_000),
        velocity: Vector2::new(0, 0),
        velocity_norm: Vector2::new(0, 0),
    };
    fish.ponder_flock(neighbor);
    assert_eq!(fish.desires.flocking.separation_vec, Vector2::new(-1, 1));
    let near = Body {
        mass: 20_000,
        position: Vector2::new(0, 500),
        velocity: Vector2::new(0, 0),
        velocity_norm: Vector2::new(0, 0),
    };
    fish.ponder_flock(near);
    assert_eq!(fish.desires.flocking.separation_vec, Vector2::new(-1, -3_999));
}

#[test]
fn speed_takes_a_step_however_small() {
    let mut fish = still_fish(0, 0, 0);
    fish.steer(Vector2::new(2_000, 0), 5);
    assert_eq!(fish.current_speed, 1);
    assert_eq!(fish.body.velocity, Vector2::new(1, 0));
    fish.steer(Vector2::new(2_000, 0), 21);
    assert_eq!(fish.current_speed, 4);
    fish.current_speed = 30;
    fish.steer(Vector2::new(2_000, 0), 21);
    assert_eq!(fish.current_speed, 27);
}

#[test]
fn new_plant_has_health_by_its_mass() {
    let mut rng = Rng::new(2);
    let plant = Plant::new(Vector2::new(50_000, 0), 25_000, &mut rng);
    assert_eq!(plant.health, 37);
    assert_eq!(plant.division_mass, 40_000);
    assert_eq!(plant.spreading_radius, 250_000);
    assert_eq!(plant.body.mass, 25_000);
    assert_eq!(plant.pos(), Vector2::new(50_000, 0));
    assert_eq!(plant.vel(), Vector2::new(0, 0));
    assert_eq!(Plant::new(Vector2::new(0, 0), -3, &mut rng).health, 0);
    assert_eq!(Plant::new(Vector2::new(0, 0), i64::MAX, &mut rng).health, u32::MAX);
}

#[test]
fn plant_under_its_division_mass_only_grows() {
    let mut rng = Rng::new(2);
    let mut plant = Plant::new(Vector2::new(50_000, 0), 25_000, &mut rng);
    let state = rng.state;
    assert!(plant.grow(&mut rng).is_none());
    assert_eq!(plant.body.mass, 27_000);
    assert_eq!(plant.health, 39);
    assert_eq!(rng.state, state);
}

#[test]
fn plant_over_its_division_mass_divides_in_two() {
    let mut rng = Rng::new(2);
    let mut plant = Plant::new(Vector2::new(50_000, 0), 45_000, &mut rng);
    assert_eq!(plant.health, 67);
    let (first, second) = plant.grow(&mut rng).unwrap();
    assert_eq!(first.body.mass, 13_333);
    assert_eq!(second.body.mass, 13_333);
    assert!(first.body.mass + second.body.mass < 45_000);
    assert_eq!(plant.body.mass, 20_334);
    assert_eq!(plant.health, 49);
    assert_eq!(first.health, 20);
    assert_eq!(second.health, 20);
    assert!(first.pos().sub(plant.pos()).length() <= 250_000);
    assert!(second.pos().sub(plant.pos()).length() <= 250_000);
    assert_ne!(first.pos(), second.pos());
}

#[test]
fn plant_divides_when_growth_takes_it_over_the_mark() {
    let mut rng = Rng::new(2);
    let mut plant = Plant::new(Vector2::new(0, 0), 38_000, &mut rng);
    assert!(plant.grow(&mut rng).is_none());
    assert_eq!(plant.body.mass, 40_000);
    assert!(plant.grow(&mut rng).is_some());
    assert_eq!(plant.body.mass, 15_334);
}

#[test]
fn dividing_costs_health_down_to_zero() {
    let mut rng = Rng::new(2);
    let mut plant = Plant::new(Vector2::new(0, 0), 45_000, &mut rng);
    plant.health = 5;
    let _ = plant.spread(&mut rng);
    assert_eq!(plant.health, 0);
    assert_eq!(plant.body.mass, 18_334);
}

#[test]
fn plant_notices_what_is_within_its_reach() {
    let mut rng = Rng::new(2);
    let plant = Plant::new(Vector2::new(50_000, 0), 25_000, &mut rng);
    assert_eq!(plant.in_sight(Vector2::new(60_000, 0)), 100_000);
    assert_eq!(plant.in_sight(Vector2::new(72_000, 0)), 484_000);
    assert_eq!(plant.in_sight(Vector2::new(72_100, 0)), OUT_OF_SIGHT);
    assert_eq!(plant.in_sight(Vector2::new(72_000, 1)), OUT_OF_SIGHT);
    assert_eq!(plant.in_sight(Vector2::new(50_020, 0)), 1);
    assert_eq!(plant.in_sight(Vector2::new(50_000, 0)), 0);
    assert_eq!(plant.in_sight(Vector2::new(0, 0)), OUT_OF_SIGHT);
    let (rect, zone) = plant.update_rects(Vector2::new(0, 0));
    assert_eq!(rect, Rect { x: 39, y: -11, w: 22, h: 22 });
    assert_eq!(zone, rect);
}
