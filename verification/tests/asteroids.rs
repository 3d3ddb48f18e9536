use asteroids_core::asteroid::{Asteroid, AsteroidSize, pos_is_valid, spawn_field, split};
use asteroids_core::geom::Vec2i;
use asteroids_core::rng::new_rng;

#[test]
fn size_taxonomy_values() {
    assert_eq!(AsteroidSize::Tiny.radius(), 18);
    assert_eq!(AsteroidSize::Small.radius(), 27);
    assert_eq!(AsteroidSize::Medium.radius(), 42);
    assert_eq!(AsteroidSize::Big.radius(), 90);
    assert_eq!(AsteroidSize::Tiny.size(), 27);
    assert_eq!(AsteroidSize::Small.size(), 42);
    assert_eq!(AsteroidSize::Medium.size(), 64);
    assert_eq!(AsteroidSize::Big.size(), 147);
    assert_eq!(AsteroidSize::Tiny.explosion_size(), 100);
    assert_eq!(AsteroidSize::Small.explosion_size(), 200);
    assert_eq!(AsteroidSize::Medium.explosion_size(), 300);
    assert_eq!(AsteroidSize::Big.explosion_size(), 500);
    assert_eq!(AsteroidSize::Tiny.sprite(), "sprites/meteorbrown_tiny1.png");
    assert_eq!(AsteroidSize::Small.sprite(), "sprites/meteorbrown_small1.png");
    assert_eq!(AsteroidSize::Medium.sprite(), "sprites/meteorbrown_med1.png");
    assert_eq!(AsteroidSize::Big.sprite(), "sprites/meteorbrown_big1.png");
}

#[test]
fn split_big_yields_two_small() {
    let center = Vec2i::new(1_000_000, 2_000_000);
    let impactor = Vec2i::new(3000, 4000);
    // |impactor| = 5000, so the unit heading is (600, 800).
    let r = split(AsteroidSize::Big, center, impactor, 200, 160, 1234);
    let (a1, a2) = r.expect("Big splits");
    assert!(matches!(a1.size, AsteroidSize::Small));
    assert!(matches!(a2.size, AsteroidSize::Small));
    // Offsets are the Small radius (27 units) along the heading.
    assert_eq!(a1.pos.x, 1_000_000 + 600 * 27);
    assert_eq!(a1.pos.y, 2_000_000 + 800 * 27);
    assert_eq!(a2.pos.x, 1_000_000 - 600 * 27);
    assert_eq!(a2.pos.y, 2_000_000 - 800 * 27);
    // Velocities run along the two perpendiculars of the heading.
    assert_eq!(a1.speed.x, -800 * 200);
    assert_eq!(a1.speed.y, 600 * 200);
    assert_eq!(a2.speed.x, 800 * 160);
    assert_eq!(a2.speed.y, -600 * 160);
    // Exactly perpendicular to the heading.
    assert_eq!(a1.speed.x * 600 + a1.speed.y * 800, 0);
    assert_eq!(a2.speed.x * 600 + a2.speed.y * 800, 0);
    // Both fragments share the angular velocity draw.
    assert_eq!(a1.rot_speed, 1234);
    assert_eq!(a2.rot_speed, 1234);
}

#[test]
fn split_medium_yields_two_tiny() {
    let r = split(
        AsteroidSize::Medium,
        Vec2i::new(0, 200_000),
        Vec2i::new(0, -5000),
        150,
        150,
        0,
    );
    let (a1, a2) = r.expect("Medium splits");
    assert!(matches!(a1.size, AsteroidSize::Tiny));
    assert!(matches!(a2.size, AsteroidSize::Tiny));
    // Heading is straight down: offsets are the Tiny radius (18 units).
    assert_eq!(a1.pos.x, 0);
    assert_eq!(a1.pos.y, 200_000 - 1000 * 18);
    assert_eq!(a2.pos.y, 200_000 + 1000 * 18);
}

#[test]
fn split_terminal_sizes_yield_nothing() {
    let center = Vec2i::new(0, 150_000);
    let v = Vec2i::new(1000, 0);
    assert!(split(AsteroidSize::Tiny, center, v, 200, 200, 0).is_none());
    assert!(split(AsteroidSize::Small, center, v, 200, 200, 0).is_none());
}

#[test]
fn pos_is_valid_rejects_keep_out_disk() {
    let field: Vec<Asteroid> = Vec::new();
    // Inside 100 units of the origin: rejected.
    assert!(!pos_is_valid(&field, Vec2i::new(0, 0), 18));
    assert!(!pos_is_valid(&field, Vec2i::new(99_999, 0), 18));
    assert!(!pos_is_valid(&field, Vec2i::new(60_000, 60_000), 18));
    // On or beyond the 100-unit circle: accepted, even close to an axis.
    assert!(pos_is_valid(&field, Vec2i::new(100_000, 0), 18));
    assert!(pos_is_valid(&field, Vec2i::new(150_000, 50_000), 18));
    assert!(pos_is_valid(&field, Vec2i::new(-71_000, 71_000), 18));
}

#[test]
fn pos_is_valid_enforces_separation() {
    let a = Asteroid::new(
        Vec2i::new(500_000, 500_000),
        Vec2i::new(0, 0),
        0,
        AsteroidSize::Big,
    );
    let field = vec![a];
    // A Big pair must be farther apart than 180 * sqrt(2) units.
    assert!(!pos_is_valid(&field, Vec2i::new(500_000 + 250_000, 500_000), 90));
    assert!(pos_is_valid(&field, Vec2i::new(500_000 + 260_000, 500_000), 90));
}

#[test]
fn spawn_field_keeps_separation_and_keep_out() {
    let mut rng = new_rng();
    let field = spawn_field(60, 3 * 1_280_000, 3 * 720_000, &mut rng);
    assert!(field.len() <= 60);
    for a in field.iter() {
        let osq = a.pos.x * a.pos.x + a.pos.y * a.pos.y;
        assert!(osq >= 100_000i64 * 100_000, "keep-out: {:?}", a.pos);
        assert!(a.pos.x.abs() <= 3 * 1_280_000);
        assert!(a.pos.y.abs() <= 3 * 720_000);
        assert!(a.speed.x.abs() <= 100_000);
        assert!(a.speed.y.abs() <= 100_000);
        assert!(a.rot_speed.abs() <= 5000);
    }
    for i in 0..field.len() {
        for j in (i + 1)..field.len() {
            let dx = field[i].pos.x - field[j].pos.x;
            let dy = field[i].pos.y - field[j].pos.y;
            let rsum = (field[i].size.radius() + field[j].size.radius()) as i64 * 1000;
            assert!(
                dx * dx + dy * dy > 2 * rsum * rsum,
                "asteroids {i} and {j} too close"
            );
        }
    }
}
