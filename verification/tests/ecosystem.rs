use aquarium::aquarium::{Aquarium, ScreenControl, SimParam};
use aquarium::bodies::Position;
use aquarium::fishes::{Fish, FishBehaviour, Plant};
use aquarium::random::Rng;
use aquarium::vectors::Vector2;

fn resting_fish(x: i64, y: i64, vision_range: i64, rng: &mut Rng) -> Fish {
    let mut fish = Fish::new(Vector2::new(x, y), 20_000, vision_range, 800_000, 5_000, rng);
    fish.body.velocity = Vector2::new(0, 0);
    fish.body.velocity_norm = Vector2::new(0, 0);
    fish
}

#[test]
fn empty_population_holds_no_target() {
    let mut rng = Rng::new(1);
    let fish = resting_fish(0, 0, 0, &mut rng);
    let none: Vec<Plant> = vec![];
    assert_eq!(Aquarium::check_proximity(&fish, &none), None);
}

#[test]
fn nearest_target_in_sight_is_found() {
    let mut rng = Rng::new(1);
    let fish = resting_fish(0, 0, 0, &mut rng);
    let plants = vec![
        Plant::new(Vector2::new(900_000, 0), 25_000, &mut rng),
        Plant::new(Vector2::new(0, 70_000), 25_000, &mut rng),
        Plant::new(Vector2::new(30_000, 0), 25_000, &mut rng),
        Plant::new(Vector2::new(0, -30_000), 25_000, &mut rng),
        Plant::new(Vector2::new(0, 0), 25_000, &mut rng),
    ];
    assert_eq!(
        Aquarium::check_proximity(&fish, &plants),
        Some((Vector2::new(30_000, 0), Vector2::new(0, 0)))
    );
    let far = vec![Plant::new(Vector2::new(900_000, 0), 25_000, &mut rng)];
    assert_eq!(Aquarium::check_proximity(&fish, &far), None);
}

#[test]
fn nearest_target_hands_out_its_velocity() {
    let mut rng = Rng::new(1);
    let fish = resting_fish(0, 0, 0, &mut rng);
    let mut other = resting_fish(10_000, 0, 0, &mut rng);
    other.body.velocity = Vector2::new(120, -340);
    let others = vec![other];
    assert_eq!(
        Aquarium::check_proximity(&fish, &others),
        Some((Vector2::new(10_000, 0), Vector2::new(120, -340)))
    );
}

#[test]
fn prey_heads_for_the_plant_it_sees() {
    let mut aquarium = Aquarium::create(17);
    let mut rng = Rng::new(1);
    aquarium.preys.push(resting_fish(0, 0, 0, &mut rng));
    aquarium.plants.push(Plant::new(Vector2::new(50_000, 0), 25_000, &mut rng));
    aquarium.tick(&ScreenControl::new());
    assert_eq!(aquarium.preys.len(), 1);
    assert_eq!(aquarium.plants.len(), 1);
    assert_eq!(aquarium.preys[0].behaviour, FishBehaviour::Arriving);
    assert!(aquarium.preys[0].pos().x > 0);
    assert_eq!(aquarium.preys[0].pos(), Vector2::new(125, 0));
    assert_eq!(aquarium.plants[0].health, 37);
}

#[test]
fn heavy_prey_heads_for_the_plant_too() {
    let mut aquarium = Aquarium::create(17);
    let mut rng = Rng::new(1);
    let mut prey = Fish::new(Vector2::new(0, 0), 3_000_000, 0, 800_000, 2_000, &mut rng);
    prey.body.velocity = Vector2::new(0, 0);
    prey.body.velocity_norm = Vector2::new(0, 0);
    aquarium.preys.push(prey);
    aquarium.plants.push(Plant::new(Vector2::new(50_000, 0), 25_000, &mut rng));
    aquarium.process_preys();
    assert_eq!(aquarium.preys.len(), 1);
    assert_eq!(aquarium.preys[0].behaviour, FishBehaviour::Arriving);
    assert_eq!(aquarium.preys[0].pos(), Vector2::new(1, 0));
    assert_eq!(aquarium.preys[0].current_speed, 100);
}

#[test]
fn dividing_plant_sows_offspring_of_health_twenty() {
    let mut aquarium = Aquarium::create(17);
    let mut rng = Rng::new(1);
    aquarium.plants.push(Plant::new(Vector2::new(0, 0), 41_000, &mut rng));
    assert_eq!(aquarium.plants[0].health, 61);
    aquarium.process_plants(false);
    assert_eq!(aquarium.plants.len(), 1);
    assert_eq!(aquarium.plants[0].health, 61);
    aquarium.process_plants(true);
    assert_eq!(aquarium.plants.len(), 3);
    assert_eq!(aquarium.plants[0].health, 43);
    assert_eq!(aquarium.plants[0].body.mass, 16_334);
    assert_eq!(aquarium.plants[0].pos(), Vector2::new(0, 0));
    assert_eq!(aquarium.plants[1].health, 20);
    assert_eq!(aquarium.plants[2].health, 20);
    assert_eq!(aquarium.plants[1].body.mass, 13_333);
    assert!(aquarium.plants[1].pos().length() <= 250_000);
    assert!(aquarium.plants[2].pos().length() <= 250_000);
}

#[test]
fn prey_flees_the_predator_before_it_feeds() {
    let mut aquarium = Aquarium::create(17);
    let mut rng = Rng::new(1);
    aquarium.preys.push(resting_fish(0, 0, 0, &mut rng));
    aquarium.plants.push(Plant::new(Vector2::new(50_000, 0), 25_000, &mut rng));
    aquarium.predators.push(resting_fish(20_000, 0, 0, &mut rng));
    aquarium.tick(&ScreenControl::new());
    assert_eq!(aquarium.preys.len(), 1);
    assert_eq!(aquarium.preys[0].behaviour, FishBehaviour::Fleeing);
    assert!(aquarium.preys[0].pos().x < 0);
    assert_eq!(aquarium.predators[0].behaviour, FishBehaviour::Seeking);
    assert!(aquarium.predators[0].pos().x < 20_000);
}

#[test]
fn prey_within_the_lethal_distance_is_eaten() {
    let mut aquarium = Aquarium::create(17);
    let mut rng = Rng::new(1);
    aquarium.preys.push(resting_fish(500_000, 0, 0, &mut rng));
    aquarium.preys.push(resting_fish(0, 0, 0, &mut rng));
    aquarium.preys.push(resting_fish(-900_000, 0, 0, &mut rng));
    aquarium.predators.push(resting_fish(5_000, 0, 0, &mut rng));
    aquarium.process_preys();
    assert_eq!(aquarium.preys.len(), 2);
    assert_eq!(aquarium.preys[0].behaviour, FishBehaviour::Fleeing);
    assert!(aquarium.preys[0].pos().x > 500_000);
    assert_eq!(aquarium.preys[1].behaviour, FishBehaviour::Wandering);
}

#[test]
fn lone_predator_wanders_on_and_on() {
    let mut aquarium = Aquarium::create(2024);
    let mut rng = Rng::new(3);
    let lone = Fish::new(Vector2::new(0, 0), 80_000, -500, 1_000_000, 6_000, &mut rng);
    aquarium.predators.push(lone);
    let arrows = ScreenControl::new();
    let start = aquarium.predators[0].pos();
    for _ in 0..1000 {
        aquarium.tick(&arrows);
        assert_eq!(aquarium.predators.len(), 1);
        assert_eq!(aquarium.predators[0].behaviour, FishBehaviour::Wandering);
        assert!(aquarium.predators[0].body.velocity.length() <= 6_000);
        let body = aquarium.predators[0].body;
        assert_eq!(body.velocity_norm, body.velocity.norm());
    }
    let end = aquarium.predators[0].pos();
    assert_ne!(start, end);
    assert!(end.sub(start).length() <= 1000 * 6_000);
}

#[test]
fn grazed_plant_loses_health_and_dies() {
    let mut aquarium = Aquarium::create(17);
    let mut rng = Rng::new(1);
    let mut weak = Plant::new(Vector2::new(10_000, 0), 25_000, &mut rng);
    weak.health = 3;
    let mut hardy = Plant::new(Vector2::new(-10_000, 0), 25_000, &mut rng);
    hardy.health = 4;
    let far = Plant::new(Vector2::new(900_000, 0), 25_000, &mut rng);
    aquarium.plants.push(weak);
    aquarium.plants.push(hardy);
    aquarium.plants.push(far);
    aquarium.preys.push(resting_fish(0, 0, 0, &mut rng));
    aquarium.process_plants(false);
    assert_eq!(aquarium.plants.len(), 2);
    assert_eq!(aquarium.plants[0].pos(), Vector2::new(900_000, 0));
    assert_eq!(aquarium.plants[0].health, 37);
    assert_eq!(aquarium.plants[1].pos(), Vector2::new(-10_000, 0));
    assert_eq!(aquarium.plants[1].health, 3);
    aquarium.process_plants(true);
    assert_eq!(aquarium.plants.len(), 1);
    assert_eq!(aquarium.plants[0].health, 39);
    assert_eq!(aquarium.plants[0].body.mass, 27_000);
}

#[test]
fn offspring_join_the_plants_and_wait_their_turn() {
    let mut aquarium = Aquarium::create(17);
    let mut rng = Rng::new(1);
    aquarium.plants.push(Plant::new(Vector2::new(0, 0), 39_000, &mut rng));
    aquarium.plants.push(Plant::new(Vector2::new(900_000, 0), 25_000, &mut rng));
    aquarium.process_plants(true);
    assert_eq!(aquarium.plants.len(), 4);
    assert_eq!(aquarium.plants[0].body.mass, 14_334);
    assert_eq!(aquarium.plants[1].body.mass, 27_000);
    assert_eq!(aquarium.plants[2].body.mass, 13_333);
    assert_eq!(aquarium.plants[3].body.mass, 13_333);
    assert_eq!(aquarium.plants[2].health, 20);
    assert_eq!(aquarium.plants[3].health, 20);
}

#[test]
fn plants_grow_once_in_a_growth_period() {
    let mut aquarium = Aquarium::create(17);
    let mut rng = Rng::new(1);
    aquarium.plants.push(Plant::new(Vector2::new(0, 0), 25_000, &mut rng));
    let arrows = ScreenControl::new();
    for _ in 0..60 {
        aquarium.tick(&arrows);
    }
    assert_eq!(aquarium.plants[0].body.mass, 25_000);
    assert_eq!(aquarium.ticks, 60);
    aquarium.tick(&arrows);
    assert_eq!(aquarium.plants[0].body.mass, 27_000);
    assert_eq!(aquarium.ticks, 0);
    for _ in 0..61 {
        aquarium.tick(&arrows);
    }
    assert_eq!(aquarium.plants[0].body.mass, 29_000);
}

#[test]
fn screen_slides_with_the_held_directions() {
    let mut aquarium = Aquarium::create(0);
    let mut arrows = ScreenControl::new();
    aquarium.process_screen_sliding(&arrows);
    assert_eq!(aquarium.offset_window, Vector2::new(0, 0));
    arrows.up = true;
    arrows.left = true;
    aquarium.process_screen_sliding(&arrows);
    assert_eq!(aquarium.offset_window, Vector2::new(6_000, 6_000));
    arrows.left = false;
    arrows.right = true;
    arrows.down = true;
    aquarium.tick(&arrows);
    assert_eq!(aquarium.offset_window, Vector2::new(0, 6_000));
    arrows.up = false;
    aquarium.tick(&arrows);
    assert_eq!(aquarium.offset_window, Vector2::new(-6_000, 0));
}

#[test]
fn aquarium_is_stocked_by_its_parameters() {
    let mut aquarium = Aquarium::create(5);
    let mut parameters = SimParam::default();
    assert!(!parameters.ready);
    assert_eq!(parameters.pl_pop, 0);
    aquarium.init(&parameters);
    assert_eq!(aquarium.plants.len() + aquarium.preys.len() + aquarium.predators.len(), 0);
    parameters.pl_pop = 10;
    parameters.pl_mass = 250_000;
    parameters.pl_spread = 500_000;
    parameters.pr_pop = 5;
    parameters.pr_mass = 200_000;
    parameters.pr_spread = 300_000;
    parameters.pr_vis_a = -999;
    parameters.pr_vis_d = 800_000;
    parameters.pr_p_speed = 5_000;
    parameters.pd_pop = 2;
    parameters.pd_mass = 800_000;
    parameters.pd_spread = 500_000;
    parameters.pd_vis_a = -500;
    parameters.pd_vis_d = 1_000_000;
    parameters.pd_p_speed = 6_000;
    aquarium.init(&parameters);
    assert_eq!(aquarium.plants.len(), 10);
    assert_eq!(aquarium.preys.len(), 5);
    assert_eq!(aquarium.predators.len(), 2);
    let center = Vector2::new(910_000, 540_000);
    for plant in aquarium.plants.iter() {
        assert_eq!(plant.body.mass, 25_000);
        assert!(plant.body.position.sub(center).length() <= 500_000);
    }
    for prey in aquarium.preys.iter() {
        assert_eq!(prey.body.mass, 20_000);
        assert_eq!(prey.peak_speed, 5_000);
        assert_eq!(prey.vision_range, -999);
        assert!(prey.body.position.sub(center).length() <= 300_000);
    }
    for predator in aquarium.predators.iter() {
        assert_eq!(predator.body.mass, 80_000);
        assert_eq!(predator.vision_depth, 1_000_000);
    }
    assert_ne!(aquarium.plants[0].pos(), aquarium.plants[1].pos());
}

#[test]
fn same_seed_gives_the_same_run() {
    let mut parameters = SimParam::default();
    parameters.pl_pop = 6;
    parameters.pl_mass = 380_000;
    parameters.pl_spread = 300_000;
    parameters.pr_pop = 8;
    parameters.pr_mass = 200_000;
    parameters.pr_spread = 300_000;
    parameters.pr_vis_a = -999;
    parameters.pr_vis_d = 800_000;
    parameters.pr_p_speed = 5_000;
    parameters.pd_pop = 3;
    parameters.pd_mass = 800_000;
    parameters.pd_spread = 300_000;
    parameters.pd_vis_a = -500;
    parameters.pd_vis_d = 1_000_000;
    parameters.pd_p_speed = 6_000;
    let mut a = Aquarium::create(77);
    let mut b = Aquarium::create(77);
    a.init(&parameters);
    b.init(&parameters);
    let arrows = ScreenControl::new();
    for _ in 0..300 {
        a.tick(&arrows);
        b.tick(&arrows);
    }
    assert_eq!(a.plants, b.plants);
    assert_eq!(a.preys, b.preys);
    assert_eq!(a.predators, b.predators);
    assert_eq!(a.rng, b.rng);
    assert_eq!(a.predators.len(), 3);
    assert!(a.preys.len() <= 8);
}
