use asteroids_core::asteroid::{Asteroid, AsteroidEntity, AsteroidSize};
use asteroids_core::collision::CollisionEvent;
use asteroids_core::explosion::{Explosion, ExplosionKind, animate_explosion, spawn_explosion};
use asteroids_core::flow::{GameState, InputState};
use asteroids_core::geom::Vec2i;
use asteroids_core::hud::{GameTime, clock_parts, elapsed_seconds};
use asteroids_core::laser::Laser;
use asteroids_core::rng::new_rng;
use asteroids_core::vessel::Player;
use asteroids_core::world::{World, enter_game, exit_game, tick};
use asteroids_core::wrap::{WrapPolicy, wrap_asteroids, wrap_position, wrap_vessel};

fn no_events() -> Vec<CollisionEvent> {
    Vec::new()
}

#[test]
fn wrap_mirrors_one_axis_and_keeps_the_other() {
    let bx: i64 = 4 * 1_280_000;
    let by: i64 = 4 * 720_000;
    let beyond = wrap_position(Vec2i::new(bx + 1, 123_456), bx, by);
    assert_eq!(beyond.x, -bx, "reappears at the mirrored boundary");
    assert_eq!(beyond.y, 123_456, "the orthogonal axis is untouched");
    let below = wrap_position(Vec2i::new(-bx - 5, -200_000), bx, by);
    assert_eq!(below.x, bx);
    assert_eq!(below.y, -200_000);
    let inside = wrap_position(Vec2i::new(500_000, -600_000), bx, by);
    assert_eq!(inside, Vec2i::new(500_000, -600_000), "inside moves nowhere");
}

#[test]
fn wrap_asteroids_wraps_each_on_its_own() {
    let bx: i64 = 4 * 1_280_000;
    let by: i64 = 4 * 720_000;
    let mut field = vec![
        AsteroidEntity {
            id: 5,
            asteroid: Asteroid::new(
                Vec2i::new(bx + 100, 0),
                Vec2i::new(1000, 0),
                7,
                AsteroidSize::Tiny,
            ),
        },
        AsteroidEntity {
            id: 6,
            asteroid: Asteroid::new(
                Vec2i::new(200_000, -by - 9),
                Vec2i::new(0, 0),
                0,
                AsteroidSize::Big,
            ),
        },
    ];
    wrap_asteroids(&mut field, bx, by);
    assert_eq!(field[0].asteroid.pos, Vec2i::new(-bx, 0));
    assert_eq!(field[0].asteroid.speed, Vec2i::new(1000, 0));
    assert_eq!(field[0].id, 5);
    assert_eq!(field[1].asteroid.pos, Vec2i::new(200_000, by));
}

#[test]
fn vessel_relative_wrap_drags_the_world() {
    let w: i64 = 1_280_000;
    let h: i64 = 720_000;
    let mut p = Player {
        id: 1,
        name: "Anakin".to_string(),
        lifes: 3,
        pos: Vec2i::new(3 * w + 500, 0),
        heading: 0,
        speed: Vec2i::new(0, 0),
        visible: true,
        fire_cooldown_ms: 0,
    };
    let mut asteroids = vec![AsteroidEntity {
        id: 2,
        asteroid: Asteroid::new(
            Vec2i::new(2 * w + 777, 100_000),
            Vec2i::new(0, 0),
            0,
            AsteroidSize::Small,
        ),
    }];
    let mut lasers = vec![Laser {
        id: 3,
        pos: Vec2i::new(-2 * w - 50, 100_000),
        heading: 0,
        speed: Vec2i::new(0, 0),
        ttl_ms: 100,
    }];
    wrap_vessel(&mut p, &mut asteroids, &mut lasers, w, h);
    assert_eq!(p.pos.x, -3 * w, "vessel teleports to the opposite extreme");
    assert_eq!(p.pos.y, 0);
    assert_eq!(
        asteroids[0].asteroid.pos.x,
        2 * w + 777 - 6 * w,
        "bodies beyond two extents come back by six"
    );
    assert_eq!(lasers[0].pos.x, -2 * w - 50 + 6 * w);
    assert_eq!(lasers[0].pos.y, 100_000, "the orthogonal axis is untouched");
}

#[test]
fn explosion_animation_advances_and_completes() {
    let e = spawn_explosion(7, Vec2i::new(10_000, 20_000), 300, ExplosionKind::Player);
    assert_eq!(e.frame, 0);
    // Short ticks accumulate without advancing the frame.
    let e = animate_explosion(&e, 40, Vec2i::new(0, 0)).unwrap();
    assert_eq!(e.frame, 0);
    assert_eq!(e.timer_ms, 40);
    // Crossing a frame length advances and re-tracks the vessel.
    let e = animate_explosion(&e, 70, Vec2i::new(5000, 6000)).unwrap();
    assert_eq!(e.frame, 1);
    assert_eq!(e.timer_ms, 10);
    assert_eq!(e.pos, Vec2i::new(5000, 6000));
    // Walk it to the last frame.
    let mut cur = e;
    while cur.frame < 8 {
        cur = animate_explosion(&cur, 100, Vec2i::new(5000, 6000)).unwrap();
    }
    // One more full frame completes it.
    assert!(animate_explosion(&cur, 100, Vec2i::new(5000, 6000)).is_none());
}

#[test]
fn asteroid_explosion_does_not_track_the_vessel() {
    let payload = ExplosionKind::AsteroidHit {
        asteroid: Asteroid::new(Vec2i::new(1, 2), Vec2i::new(0, 0), 0, AsteroidSize::Medium),
        laser_velocity: Vec2i::new(0, 1_000_000),
    };
    let e = spawn_explosion(8, Vec2i::new(10_000, 20_000), 300, payload);
    let e = animate_explosion(&e, 100, Vec2i::new(999, 999)).unwrap();
    assert_eq!(e.pos, Vec2i::new(10_000, 20_000));
}

#[test]
fn entering_the_game_builds_the_world() {
    let mut w = World::new(WrapPolicy::PerObject);
    let mut rng = new_rng();
    enter_game(&mut w, 40, &mut rng);
    let p = w.player.as_ref().expect("vessel spawned");
    assert_eq!(p.lifes, 3);
    assert_eq!(p.pos, Vec2i::new(0, 0));
    assert!(w.asteroids.len() <= 40);
    assert!(w.lasers.is_empty());
    assert!(w.explosions.is_empty());
    exit_game(&mut w);
    assert!(w.player.is_none());
    assert!(w.asteroids.is_empty());
}

#[test]
fn tick_applies_transitions_at_the_boundary() {
    let mut w = World::new(WrapPolicy::PerObject);
    let mut rng = new_rng();
    let mut start = InputState::idle();
    start.start = true;
    // First tick: still at the menu; the start press schedules InGame.
    let out = tick(&mut w, &start, 16, &no_events(), &mut rng);
    assert!(!out.exit_app);
    assert_eq!(w.flow.state, GameState::Menu);
    assert_eq!(w.flow.next, Some(GameState::InGame));
    assert!(w.player.is_none(), "nothing spawns mid-tick");
    // Second tick: the boundary applies it and the game is set up.
    let out = tick(&mut w, &InputState::idle(), 16, &no_events(), &mut rng);
    assert!(!out.exit_app);
    assert_eq!(w.flow.state, GameState::InGame);
    assert!(w.player.is_some());
    // Thrust is handed out while playing.
    let mut thrust = InputState::idle();
    thrust.thrust = true;
    let out = tick(&mut w, &thrust, 16, &no_events(), &mut rng);
    assert!(out.impulse.is_some());
    // Exit schedules the menu; the next boundary tears the world down.
    let mut esc = InputState::idle();
    esc.exit = true;
    tick(&mut w, &esc, 16, &no_events(), &mut rng);
    assert_eq!(w.flow.next, Some(GameState::Menu));
    tick(&mut w, &InputState::idle(), 16, &no_events(), &mut rng);
    assert_eq!(w.flow.state, GameState::Menu);
    assert!(w.player.is_none());
    assert!(w.asteroids.is_empty());
}

#[test]
fn tick_at_the_menu_reports_exit() {
    let mut w = World::new(WrapPolicy::VesselRelative);
    let mut rng = new_rng();
    let mut esc = InputState::idle();
    esc.exit = true;
    let out = tick(&mut w, &esc, 16, &no_events(), &mut rng);
    assert!(out.exit_app);
}

#[test]
fn full_hit_cycle_costs_a_life() {
    let mut w = World::new(WrapPolicy::PerObject);
    let mut rng = new_rng();
    let mut start = InputState::idle();
    start.start = true;
    tick(&mut w, &start, 16, &no_events(), &mut rng);
    tick(&mut w, &InputState::idle(), 16, &no_events(), &mut rng);
    let pid = w.player.as_ref().unwrap().id;
    let aid = w.asteroids[0].id;
    // The physics collaborator reports the vessel striking an asteroid.
    let events = vec![CollisionEvent::Started(pid, aid)];
    tick(&mut w, &InputState::idle(), 16, &events, &mut rng);
    assert!(!w.player.as_ref().unwrap().visible, "hidden during the explosion");
    assert_eq!(w.explosions.len(), 1);
    // Let the nine-frame explosion play out: 100 ms per frame.
    let mut n = 0;
    while !w.explosions.is_empty() && n < 20 {
        tick(&mut w, &InputState::idle(), 100, &no_events(), &mut rng);
        n += 1;
    }
    let p = w.player.as_ref().unwrap();
    assert_eq!(p.lifes, 2, "the respawn costs a life");
    assert!(p.visible);
    assert_eq!(p.pos, Vec2i::new(0, 0));
}

#[test]
fn destroying_a_big_asteroid_splits_it_into_two_small() {
    let mut w = World::new(WrapPolicy::PerObject);
    let mut rng = new_rng();
    w.flow.state = GameState::InGame;
    w.player = Some(Player {
        id: 1,
        name: "Anakin".to_string(),
        lifes: 3,
        pos: Vec2i::new(0, 0),
        heading: 0,
        speed: Vec2i::new(0, 0),
        visible: true,
        fire_cooldown_ms: 200,
    });
    w.asteroids = vec![AsteroidEntity {
        id: 2,
        asteroid: Asteroid::new(
            Vec2i::new(2_000_000, 1_500_000),
            Vec2i::new(0, 0),
            0,
            AsteroidSize::Big,
        ),
    }];
    w.lasers = vec![Laser {
        id: 3,
        pos: Vec2i::new(2_000_000, 1_400_000),
        heading: 0,
        speed: Vec2i::new(3000, 4000),
        ttl_ms: 500,
    }];
    w.next_id = 10;
    let events = vec![CollisionEvent::Started(3, 2)];
    tick(&mut w, &InputState::idle(), 16, &events, &mut rng);
    assert!(w.asteroids.is_empty());
    assert!(w.lasers.is_empty());
    assert_eq!(w.explosions.len(), 1);
    let mut n = 0;
    while !w.explosions.is_empty() && n < 20 {
        tick(&mut w, &InputState::idle(), 100, &no_events(), &mut rng);
        n += 1;
    }
    assert_eq!(w.asteroids.len(), 2, "a Big asteroid splits into two");
    // The impact heading of velocity (3000, 4000) is (600, 800).
    for f in w.asteroids.iter() {
        assert!(matches!(f.asteroid.size, AsteroidSize::Small));
        assert_eq!(
            f.asteroid.speed.x * 600 + f.asteroid.speed.y * 800,
            0,
            "fragment velocity perpendicular to the impact heading"
        );
        assert!(f.asteroid.rot_speed.abs() <= 5000);
        let sp = (f.asteroid.speed.x.pow(2) + f.asteroid.speed.y.pow(2)) as f64;
        let sp = sp.sqrt();
        assert!(sp >= 149_000.0 && sp <= 251_000.0, "fragment speed {sp}");
    }
    assert_eq!(w.asteroids[0].id, 10 + 1, "fresh ids follow the explosion's");
    assert_eq!(w.asteroids[1].id, 10 + 2);
}

#[test]
fn session_timer_resets_on_entry_and_counts_in_game() {
    let mut w = World::new(WrapPolicy::PerObject);
    let mut rng = new_rng();
    assert_eq!(w.play_time_ms, 0);
    let mut start = InputState::idle();
    start.start = true;
    tick(&mut w, &start, 16, &no_events(), &mut rng);
    assert_eq!(w.play_time_ms, 0, "the menu does not count");
    tick(&mut w, &InputState::idle(), 16, &no_events(), &mut rng);
    assert_eq!(w.play_time_ms, 16, "entry resets, then the tick counts");
    tick(&mut w, &InputState::idle(), 100, &no_events(), &mut rng);
    assert_eq!(w.play_time_ms, 116);
    let mut esc = InputState::idle();
    esc.exit = true;
    tick(&mut w, &esc, 16, &no_events(), &mut rng);
    tick(&mut w, &InputState::idle(), 16, &no_events(), &mut rng);
    assert_eq!(w.flow.state, GameState::Menu);
    assert_eq!(w.play_time_ms, 132, "frozen outside the game");
}

#[test]
fn clock_parts_match_the_hud_format() {
    assert_eq!(clock_parts(0), (0, 0, 0));
    assert_eq!(clock_parts(59), (0, 0, 59));
    assert_eq!(clock_parts(61), (0, 1, 1));
    // Minutes count the total, not the remainder within the hour.
    assert_eq!(clock_parts(3661), (1, 61, 1));
}

#[test]
fn elapsed_seconds_saturates() {
    assert_eq!(elapsed_seconds(5000, GameTime(2000)), 3);
    assert_eq!(elapsed_seconds(1000, GameTime(2000)), 0);
}

#[test]
fn explosion_payload_remembers_the_impact() {
    let a = Asteroid::new(Vec2i::new(1, 2), Vec2i::new(3, 4), 5, AsteroidSize::Big);
    let e = Explosion {
        id: 1,
        pos: Vec2i::new(1, 2),
        scale_milli: 500,
        frame: 0,
        timer_ms: 0,
        kind: ExplosionKind::AsteroidHit { asteroid: a, laser_velocity: Vec2i::new(9, 9) },
    };
    match e.kind {
        ExplosionKind::AsteroidHit { asteroid, laser_velocity } => {
            assert!(matches!(asteroid.size, AsteroidSize::Big));
            assert_eq!(laser_velocity, Vec2i::new(9, 9));
        },
        _ => panic!(),
    }
}
