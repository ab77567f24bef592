use dinotrain::brain::Brain;
use dinotrain::game::{brain_run, Game};
use dinotrain::params::GameParameters;
use dinotrain::rng::TrainRng;

#[test]
fn test_random_coherence() {
    // the terrain generator seeded with "test" yields a fixed word sequence
    let mut game = Game::new(&GameParameters::new_default(), 0, "test", None);
    let random_number0: u32 = game.land_rng.next_u32();
    let random_number1: u32 = game.land_rng.next_u32();
    let random_number2: u32 = game.land_rng.next_u32();
    let random_number3: u32 = game.land_rng.next_u32();
    let random_number4: u32 = game.land_rng.next_u32();

    assert_eq!(random_number0, 4210505251);
    assert_eq!(random_number1, 2381057059);
    assert_eq!(random_number2, 2142037166);
    assert_eq!(random_number3, 2036600936);
    assert_eq!(random_number4, 640383128);
}

#[test]
fn test_brainless_game_eventually_loses() {
    let params = GameParameters::new_default();
    let mut game = Game::new(&params, 0, "gra", None);
    let interval = 1_000_000 / (params.game_fps as u64);
    let mut now = 0u64;
    for _ in 0..10_000 {
        if game.has_lost {
            break;
        }
        now += interval;
        game.update(now).expect("the clock fits");
    }
    // a dinosaur that never jumps runs into the first ground hazard
    assert!(game.has_lost);
    assert_eq!(game.score, 0);
}

#[test]
fn test_brain_run_is_reproducible() {
    let params = GameParameters::new_default();
    let mut rng1 = TrainRng::from_seed([7; 32]);
    let brain1 = Brain::new(&params, &mut rng1);
    let mut rng2 = TrainRng::from_seed([7; 32]);
    let brain2 = Brain::new(&params, &mut rng2);
    assert_eq!(brain1, brain2);

    let score1 = brain_run(&params, brain1, "land", 50_000).expect("no clock overflow");
    let score2 = brain_run(&params, brain2, "land", 50_000).expect("no clock overflow");
    assert_eq!(score1, score2);
}

#[test]
fn test_dinosaur_jump_and_gravity() {
    let params = GameParameters::new_default();
    let mut game = Game::new(&params, 0, "gra", None);
    assert_eq!(game.dinosaur.y, 0);
    assert!(game.dinosaur.jump(&params));
    assert_eq!(game.dinosaur.velocity, params.dinausor_jump_velocity);
    // no double jump while moving up
    assert!(!game.dinosaur.jump(&params));
    // after a tick the dinosaur is airborne and slowed by gravity
    let mut d = game.dinosaur;
    d.update(&params, 100_000);
    assert!(d.y > 0);
    assert!(d.velocity < params.dinausor_jump_velocity);
    // ticking on, gravity brings it back to the ground and rests there
    let mut now = 100_000u64;
    for _ in 0..600 {
        now += 16_666;
        d.update(&params, now);
        if d.y == 0 {
            break;
        }
    }
    assert_eq!(d.y, 0);
    assert_eq!(d.velocity, 0);
}

#[test]
fn test_bend_swaps_width_and_height() {
    let params = GameParameters::new_default();
    let mut game = Game::new(&params, 0, "gra", None);
    let w = game.dinosaur.width;
    let h = game.dinosaur.height;
    assert!(game.dinosaur.bend());
    assert_eq!(game.dinosaur.width, h);
    assert_eq!(game.dinosaur.height, w);
    // bending twice is a no-op
    assert!(!game.dinosaur.bend());
    // no jumping while bent
    assert!(!game.dinosaur.jump(&params));
    assert!(game.dinosaur.unbend());
    assert_eq!(game.dinosaur.width, w);
    assert_eq!(game.dinosaur.height, h);
}

#[test]
fn test_obstacles_freeze_on_clock_regression() {
    let params = GameParameters::new_default();
    let mut game = Game::new(&params, 1_000_000, "gra", None);
    let mut now = 1_000_000u64;
    let interval = 1_000_000 / (params.game_fps as u64);
    // run until at least one obstacle exists
    while game.obstacles.is_empty() {
        now += interval;
        game.update(now).expect("the clock fits");
    }
    let mut frozen = game.obstacles[0];
    let x_before = frozen.x;
    // a time before the obstacle's last update leaves it unchanged
    frozen.update(0);
    assert_eq!(frozen.x, x_before);
}

#[test]
fn test_identical_seeds_spawn_identical_obstacles() {
    let params = GameParameters::new_default();
    let mut g1 = Game::new(&params, 0, "lockstep", None);
    let mut g2 = Game::new(&params, 0, "lockstep", None);
    let interval = 1_000_000 / (params.game_fps as u64);
    let mut now = 0u64;
    for _ in 0..600 {
        now += interval;
        g1.update(now).expect("the clock fits");
        g2.update(now).expect("the clock fits");
        assert_eq!(g1.obstacles, g2.obstacles);
        assert_eq!(g1.score, g2.score);
        assert_eq!(g1.has_lost, g2.has_lost);
    }
    // the run actually spawned terrain, so the comparison was not vacuous
    assert!(g1.score > 0 || !g1.obstacles.is_empty() || g1.has_lost);
}
