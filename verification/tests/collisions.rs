use asteroids_core::asteroid::{Asteroid, AsteroidEntity, AsteroidSize};
use asteroids_core::collision::{CollisionEvent, vessel_collisions};
use asteroids_core::explosion::{Explosion, ExplosionKind};
use asteroids_core::geom::Vec2i;
use asteroids_core::laser::Laser;
use asteroids_core::vessel::Player;

fn test_player(id: u64) -> Player {
    Player {
        id,
        name: "Anakin".to_string(),
        lifes: 3,
        pos: Vec2i::new(0, 200_000),
        heading: 0,
        speed: Vec2i::new(0, 0),
        visible: true,
        fire_cooldown_ms: 0,
    }
}

fn test_laser(id: u64) -> Laser {
    Laser {
        id,
        pos: Vec2i::new(0, 300_000),
        heading: 0,
        speed: Vec2i::new(0, 1_000_000),
        ttl_ms: 400,
    }
}

fn test_asteroid(id: u64) -> AsteroidEntity {
    AsteroidEntity {
        id,
        asteroid: Asteroid::new(
            Vec2i::new(500_000, 500_000),
            Vec2i::new(10_000, 0),
            100,
            AsteroidSize::Big,
        ),
    }
}

#[test]
fn duplicate_pair_events_resolve_once() {
    let mut player = test_player(1);
    let mut lasers = vec![test_laser(2)];
    let mut asteroids = vec![test_asteroid(3)];
    let mut explosions: Vec<Explosion> = Vec::new();
    let mut next_id: u64 = 10;
    // The same pair three times, once with the sides swapped.
    let events = vec![
        CollisionEvent::Started(2, 3),
        CollisionEvent::Started(3, 2),
        CollisionEvent::Started(2, 3),
    ];
    vessel_collisions(
        &mut player,
        &mut lasers,
        &mut asteroids,
        &mut explosions,
        &mut next_id,
        &events,
    );
    assert_eq!(lasers.len(), 0, "exactly one laser despawned");
    assert_eq!(asteroids.len(), 0, "exactly one asteroid despawned");
    assert_eq!(explosions.len(), 1, "exactly one explosion spawned");
    assert_eq!(next_id, 11);
    assert!(player.visible);
    let e = &explosions[0];
    assert_eq!(e.id, 10);
    assert_eq!(e.pos.x, 500_000);
    assert_eq!(e.pos.y, 500_000);
    assert_eq!(e.scale_milli, 500, "Big asteroid explodes at half scale");
    assert_eq!(e.frame, 0);
    match e.kind {
        ExplosionKind::AsteroidHit { asteroid, laser_velocity } => {
            assert!(matches!(asteroid.size, AsteroidSize::Big));
            assert_eq!(laser_velocity.y, 1_000_000);
        },
        _ => panic!("expected an asteroid explosion"),
    }
}

#[test]
fn vessel_hit_hides_vessel_and_spawns_player_explosion() {
    let mut player = test_player(1);
    let mut lasers = vec![test_laser(2)];
    let mut asteroids = vec![test_asteroid(3)];
    let mut explosions: Vec<Explosion> = Vec::new();
    let mut next_id: u64 = 10;
    let events = vec![CollisionEvent::Started(3, 1)];
    vessel_collisions(
        &mut player,
        &mut lasers,
        &mut asteroids,
        &mut explosions,
        &mut next_id,
        &events,
    );
    assert!(!player.visible, "vessel is hidden, not despawned");
    assert_eq!(asteroids.len(), 1, "the asteroid flies on");
    assert_eq!(lasers.len(), 1, "no laser was involved");
    assert_eq!(explosions.len(), 1);
    assert!(matches!(explosions[0].kind, ExplosionKind::Player));
    assert_eq!(explosions[0].pos.x, 0);
    assert_eq!(explosions[0].pos.y, 200_000);
    assert_eq!(explosions[0].scale_milli, 500);
}

#[test]
fn vessel_hit_by_laser_despawns_the_laser() {
    let mut player = test_player(1);
    let mut lasers = vec![test_laser(2)];
    let mut asteroids: Vec<AsteroidEntity> = Vec::new();
    let mut explosions: Vec<Explosion> = Vec::new();
    let mut next_id: u64 = 10;
    let events = vec![CollisionEvent::Started(2, 1)];
    vessel_collisions(
        &mut player,
        &mut lasers,
        &mut asteroids,
        &mut explosions,
        &mut next_id,
        &events,
    );
    assert!(!player.visible);
    assert_eq!(lasers.len(), 0, "the impacting laser despawns too");
    assert_eq!(explosions.len(), 1);
    assert!(matches!(explosions[0].kind, ExplosionKind::Player));
}

#[test]
fn duplicate_vessel_events_spawn_one_explosion() {
    let mut player = test_player(1);
    let mut lasers: Vec<Laser> = Vec::new();
    let mut asteroids = vec![test_asteroid(3)];
    let mut explosions: Vec<Explosion> = Vec::new();
    let mut next_id: u64 = 10;
    let events = vec![
        CollisionEvent::Started(1, 3),
        CollisionEvent::Started(3, 1),
        CollisionEvent::Started(1, 3),
    ];
    vessel_collisions(
        &mut player,
        &mut lasers,
        &mut asteroids,
        &mut explosions,
        &mut next_id,
        &events,
    );
    assert!(!player.visible);
    assert_eq!(explosions.len(), 1, "the vessel is consumed at most once per tick");
    assert_eq!(next_id, 11);
}

#[test]
fn stop_events_and_stale_ids_change_nothing() {
    let mut player = test_player(1);
    let mut lasers = vec![test_laser(2)];
    let mut asteroids = vec![test_asteroid(3)];
    let mut explosions: Vec<Explosion> = Vec::new();
    let mut next_id: u64 = 10;
    let events = vec![
        CollisionEvent::Stopped(2, 3),
        CollisionEvent::Started(2, 77),
        CollisionEvent::Started(77, 88),
        CollisionEvent::Started(3, 3),
    ];
    vessel_collisions(
        &mut player,
        &mut lasers,
        &mut asteroids,
        &mut explosions,
        &mut next_id,
        &events,
    );
    assert!(player.visible);
    assert_eq!(lasers.len(), 1);
    assert_eq!(asteroids.len(), 1);
    assert_eq!(explosions.len(), 0);
    assert_eq!(next_id, 10);
}
