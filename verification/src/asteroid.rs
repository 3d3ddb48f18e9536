//! Asteroids: the four-step size taxonomy, splitting on destruction, and
//! the randomized field spawner with its separation and keep-out
//! guarantees.

use vstd::prelude::*;
use crate::geom::{Vec2i, dot, dist2, in_bounds, unit_of, normalize, dist_sq, COORD_LIMIT};
use crate::rng::rand_in;

verus! {

/// The four asteroid size classes, largest to smallest: Big, Medium,
/// Small, Tiny.  Splitting steps down: Big to Small, Medium to Tiny;
/// Tiny and Small are terminal.
#[derive(Clone, Copy, Debug, PartialEq, Eq, Structural)]
pub enum AsteroidSize {
    Tiny,
    Small,
    Medium,
    Big,
}

/// Collision radius of a size class, in whole world units.
pub open spec fn radius_units(s: AsteroidSize) -> int {
    match s {
        AsteroidSize::Tiny => 18,
        AsteroidSize::Small => 27,
        AsteroidSize::Medium => 42,
        AsteroidSize::Big => 90,
    }
}

/// Render footprint of a size class, in whole world units.
pub open spec fn footprint_units(s: AsteroidSize) -> int {
    match s {
        AsteroidSize::Tiny => 27,
        AsteroidSize::Small => 42,
        AsteroidSize::Medium => 64,
        AsteroidSize::Big => 147,
    }
}

/// Visual scale of the explosion a size class leaves, in thousandths.
pub open spec fn explosion_scale_milli(s: AsteroidSize) -> int {
    match s {
        AsteroidSize::Tiny => 100,
        AsteroidSize::Small => 200,
        AsteroidSize::Medium => 300,
        AsteroidSize::Big => 500,
    }
}

/// The size class the fragments of a destroyed asteroid take, if any:
/// only Medium and Big split.
pub open spec fn split_child(s: AsteroidSize) -> Option<AsteroidSize> {
    match s {
        AsteroidSize::Tiny => None,
        AsteroidSize::Small => None,
        AsteroidSize::Medium => Some(AsteroidSize::Tiny),
        AsteroidSize::Big => Some(AsteroidSize::Small),
    }
}

impl AsteroidSize {
    /// Render footprint, in whole world units.
    pub fn size(&self) -> (r: u32)
        ensures
            r == footprint_units(*self),
    {
        match self {
            AsteroidSize::Tiny => 27,
            AsteroidSize::Small => 42,
            AsteroidSize::Medium => 64,
            AsteroidSize::Big => 147,
        }
    }

    /// Sprite identifier of this size class.
    pub fn sprite(&self) -> (r: &'static str)
        ensures
            r@ == sprite_name(*self),
    {
        match self {
            AsteroidSize::Tiny => "sprites/meteorbrown_tiny1.png",
            AsteroidSize::Small => "sprites/meteorbrown_small1.png",
            AsteroidSize::Medium => "sprites/meteorbrown_med1.png",
            AsteroidSize::Big => "sprites/meteorbrown_big1.png",
        }
    }

    /// Collision radius, in whole world units.
    pub fn radius(&self) -> (r: u32)
        ensures
            r == radius_units(*self),
    {
        match self {
            AsteroidSize::Tiny => 18,
            AsteroidSize::Small => 27,
            AsteroidSize::Medium => 42,
            AsteroidSize::Big => 90,
        }
    }

    /// Visual scale of the explosion this size leaves, in thousandths.
    pub fn explosion_size(&self) -> (r: u32)
        ensures
            r == explosion_scale_milli(*self),
    {
        match self {
            AsteroidSize::Tiny => 100,
            AsteroidSize::Small => 200,
            AsteroidSize::Medium => 300,
            AsteroidSize::Big => 500,
        }
    }
}

/// Sprite identifier of a size class, as a spec-level sequence.
pub open spec fn sprite_name(s: AsteroidSize) -> Seq<char> {
    match s {
        AsteroidSize::Tiny => "sprites/meteorbrown_tiny1.png"@,
        AsteroidSize::Small => "sprites/meteorbrown_small1.png"@,
        AsteroidSize::Medium => "sprites/meteorbrown_med1.png"@,
        AsteroidSize::Big => "sprites/meteorbrown_big1.png"@,
    }
}

/// A drifting asteroid: position and linear velocity in milli-units,
/// angular velocity in milli-radians per second, and a size class.
#[derive(Clone, Copy, Debug, PartialEq, Eq, Structural)]
pub struct Asteroid {
    pub pos: Vec2i,
    pub speed: Vec2i,
    pub rot_speed: i64,
    pub size: AsteroidSize,
}

impl Asteroid {
    pub fn new(pos: Vec2i, speed: Vec2i, rot_speed: i64, size: AsteroidSize) -> (r: Self)
        ensures
            r == (Asteroid { pos, speed, rot_speed, size }),
    {
        Asteroid { pos, speed, rot_speed, size }
    }
}

/// An asteroid as it lives in the simulation world, under a world-unique
/// entity id.
#[derive(Clone, Copy, Debug, PartialEq, Eq, Structural)]
pub struct AsteroidEntity {
    pub id: u64,
    pub asteroid: Asteroid,
}

/// The unit heading of the impact that destroys an asteroid: the direction
/// of the impactor's velocity, or straight up for a (degenerate) impactor
/// at rest.
pub open spec fn impact_heading(v: Vec2i) -> Vec2i {
    if v.x == 0 && v.y == 0 {
        Vec2i { x: 0, y: 1000 }
    } else {
        unit_of(v)
    }
}

/// The first fragment of a split: offset forward along the impact
/// heading by the child radius, velocity along the heading's left
/// perpendicular scaled by the speed draw `s`, sharing the spin draw.
pub open spec fn split_fragment1(
    size: AsteroidSize,
    center: Vec2i,
    vel: Vec2i,
    s: int,
    rot: int,
) -> Asteroid {
    let d = impact_heading(vel);
    let child = split_child(size)->Some_0;
    let rad = radius_units(child);
    Asteroid {
        pos: Vec2i { x: (center.x + d.x * rad) as i64, y: (center.y + d.y * rad) as i64 },
        speed: Vec2i { x: (-d.y * s) as i64, y: (d.x * s) as i64 },
        rot_speed: rot as i64,
        size: child,
    }
}

/// The second fragment of a split: offset backward along the impact
/// heading by the child radius, velocity along the heading's right
/// perpendicular scaled by the speed draw `s`, sharing the spin draw.
pub open spec fn split_fragment2(
    size: AsteroidSize,
    center: Vec2i,
    vel: Vec2i,
    s: int,
    rot: int,
) -> Asteroid {
    let d = impact_heading(vel);
    let child = split_child(size)->Some_0;
    let rad = radius_units(child);
    Asteroid {
        pos: Vec2i { x: (center.x - d.x * rad) as i64, y: (center.y - d.y * rad) as i64 },
        speed: Vec2i { x: (d.y * s) as i64, y: (-d.x * s) as i64 },
        rot_speed: rot as i64,
        size: child,
    }
}

/// Splitting a Medium or Big asteroid at blast point `center` yields two
/// fragments of the next size down; Tiny and Small yield none.  The
/// fragments sit symmetrically on the impact-heading line through the
/// blast point, each at the child radius from it, and their velocities
/// run along the two perpendiculars of the heading, scaled by the two
/// speed draws; both share the angular velocity draw.
pub fn split(
    size: AsteroidSize,
    center: Vec2i,
    impactor_vel: Vec2i,
    speed1: i64,
    speed2: i64,
    rot_speed: i64,
) -> (r: Option<(Asteroid, Asteroid)>)
    requires
        in_bounds(center, 12000000),
        in_bounds(impactor_vel, COORD_LIMIT as int),
        150 <= speed1 <= 250,
        150 <= speed2 <= 250,
        -5000 <= rot_speed <= 5000,
    ensures
        r is Some <==> split_child(size) is Some,
        r matches Some((a1, a2)) ==> a1 == split_fragment1(
            size,
            center,
            impactor_vel,
            speed1 as int,
            rot_speed as int,
        ) && a2 == split_fragment2(size, center, impactor_vel, speed2 as int, rot_speed as int),
        r matches Some((a1, a2)) ==> {
            let d = impact_heading(impactor_vel);
            let child = split_child(size)->Some_0;
            let rad = radius_units(child);
            &&& a1.size == child
            &&& a2.size == child
            &&& a1.pos.x == center.x + d.x * rad
            &&& a1.pos.y == center.y + d.y * rad
            &&& a2.pos.x == center.x - d.x * rad
            &&& a2.pos.y == center.y - d.y * rad
            &&& a1.speed.x == -d.y * speed1
            &&& a1.speed.y == d.x * speed1
            &&& a2.speed.x == d.y * speed2
            &&& a2.speed.y == -d.x * speed2
            &&& dot(a1.speed, d) == 0
            &&& dot(a2.speed, d) == 0
            &&& a1.rot_speed == rot_speed
            &&& a2.rot_speed == rot_speed
            &&& in_bounds(a1.pos, 12090000)
            &&& in_bounds(a2.pos, 12090000)
            &&& in_bounds(a1.speed, 250000)
            &&& in_bounds(a2.speed, 250000)
        },
{
    let child: Option<AsteroidSize> = match size {
        AsteroidSize::Tiny => None,
        AsteroidSize::Small => None,
        AsteroidSize::Medium => Some(AsteroidSize::Tiny),
        AsteroidSize::Big => Some(AsteroidSize::Small),
    };
    match child {
        None => None,
        Some(c) => {
            let d: Vec2i = if impactor_vel.x == 0 && impactor_vel.y == 0 {
                Vec2i { x: 0, y: 1000 }
            } else {
                normalize(impactor_vel)
            };
            let rad: i64 = c.radius() as i64;
            proof {
                assert(-90000 <= d.x * rad <= 90000 && -90000 <= d.y * rad <= 90000)
                    by (nonlinear_arith)
                    requires
                        -1000 <= d.x <= 1000,
                        -1000 <= d.y <= 1000,
                        0 <= rad <= 90,
                {
                }
                assert(-250000 <= d.x * speed1 <= 250000 && -250000 <= (-d.y) * speed1 <= 250000
                    && -250000 <= (-d.x) * speed2 <= 250000 && -250000 <= d.y * speed2 <= 250000)
                    by (nonlinear_arith)
                    requires
                        -1000 <= d.x <= 1000,
                        -1000 <= d.y <= 1000,
                        0 <= speed1 <= 250,
                        0 <= speed2 <= 250,
                {
                }
                assert((-d.y * speed1) * d.x + (d.x * speed1) * d.y == 0) by (nonlinear_arith);
                assert((d.y * speed2) * d.x + (-d.x * speed2) * d.y == 0) by (nonlinear_arith);
            }
            let a1 = Asteroid {
                pos: Vec2i { x: center.x + d.x * rad, y: center.y + d.y * rad },
                speed: Vec2i { x: -d.y * speed1, y: d.x * speed1 },
                rot_speed,
                size: c,
            };
            let a2 = Asteroid {
                pos: Vec2i { x: center.x - d.x * rad, y: center.y - d.y * rad },
                speed: Vec2i { x: d.y * speed2, y: -d.x * speed2 },
                rot_speed,
                size: c,
            };
            Some((a1, a2))
        },
    }
}

/// The squared separation floor for two asteroid centers:
/// `2 * ((r1 + r2) * 1000)^2`, the square of `(r1 + r2) * sqrt(2)` in
/// milli-units.
pub open spec fn sep_threshold(r1: int, r2: int) -> int {
    2 * ((r1 + r2) * 1000) * ((r1 + r2) * 1000)
}

/// Outside the keep-out disk around the origin: at least 100 units from
/// the world center, so the player spawns clear of every asteroid.
pub open spec fn outside_keep_out(p: Vec2i) -> bool {
    crate::geom::norm_sq(p) >= 100000 * 100000
}

/// Two asteroids keep the spawn separation: their centers are strictly
/// farther apart than `(r1 + r2) * sqrt(2)`.
pub open spec fn separated(a: Asteroid, b: Asteroid) -> bool {
    dist2(a.pos, b.pos) > sep_threshold(radius_units(a.size), radius_units(b.size))
}

/// A single spawned asteroid is well formed for a field bounded by
/// `±bx` by `±by`: position inside the bounds and outside the keep-out
/// disk, velocity components within 100 units/s, angular velocity within
/// 5 rad/s.
pub open spec fn asteroid_ok(a: Asteroid, bx: int, by: int) -> bool {
    &&& -bx <= a.pos.x <= bx
    &&& -by <= a.pos.y <= by
    &&& outside_keep_out(a.pos)
    &&& -100000 <= a.speed.x <= 100000
    &&& -100000 <= a.speed.y <= 100000
    &&& -5000 <= a.rot_speed <= 5000
}

/// A whole spawned field is well formed: every asteroid is, and every
/// pair keeps the spawn separation.
pub open spec fn field_ok(s: Seq<Asteroid>, bx: int, by: int) -> bool {
    &&& forall|i: int| 0 <= i < s.len() ==> asteroid_ok(#[trigger] s[i], bx, by)
    &&& forall|i: int, j: int|
        0 <= i < j < s.len() ==> separated(#[trigger] s[i], #[trigger] s[j])
}

/// A candidate center for a new asteroid of radius `rad` is admissible
/// against the placed field: outside the keep-out disk and strictly
/// farther than the separation floor from every placed asteroid.
pub open spec fn spec_pos_valid(s: Seq<Asteroid>, pos: Vec2i, rad: int) -> bool {
    &&& outside_keep_out(pos)
    &&& forall|i: int|
        0 <= i < s.len() ==> dist2(#[trigger] s[i].pos, pos) > sep_threshold(
            radius_units(s[i].size),
            rad,
        )
}

/// Decides whether a candidate center may host a new asteroid of the
/// given collision radius (whole world units).
pub fn pos_is_valid(asteroids: &Vec<Asteroid>, pos: Vec2i, radius: u32) -> (r: bool)
    requires
        in_bounds(pos, COORD_LIMIT as int),
        radius <= 90,
        forall|i: int|
            0 <= i < asteroids@.len() ==> in_bounds(#[trigger] asteroids@[i].pos, COORD_LIMIT as int),
    ensures
        r == spec_pos_valid(asteroids@, pos, radius as int),
{
    let osq: i64 = dist_sq(pos, Vec2i { x: 0, y: 0 });
    if osq < 10000000000 {
        return false;
    }
    let n: usize = asteroids.len();
    let mut i: usize = 0;
    while i < n
        invariant
            n == asteroids@.len(),
            i <= n,
            in_bounds(pos, COORD_LIMIT as int),
            radius <= 90,
            forall|k: int|
                0 <= k < n ==> in_bounds(#[trigger] asteroids@[k].pos, COORD_LIMIT as int),
            forall|k: int|
                0 <= k < i ==> dist2(#[trigger] asteroids@[k].pos, pos) > sep_threshold(
                    radius_units(asteroids@[k].size),
                    radius as int,
                ),
        decreases n - i,
    {
        let a: Asteroid = asteroids[i];
        let dsq: i64 = dist_sq(a.pos, pos);
        let rsum: i64 = a.size.radius() as i64 + radius as i64;
        proof {
            assert(0 <= 2 * (rsum * 1000) * (rsum * 1000) <= 64800000000) by (nonlinear_arith)
                requires
                    0 <= rsum <= 180,
            {
            }
        }
        let thr: i64 = 2 * (rsum * 1000) * (rsum * 1000);
        if dsq <= thr {
            return false;
        }
        i += 1;
    }
    true
}

/// How many fresh positions are tried for one asteroid before it is given
/// up on, the guard against an unbounded rejection loop in a crowded
/// field.
pub const PLACEMENT_TRIES: usize = 100;

/// Builds a randomized asteroid field of at most `count` asteroids inside
/// `±bx` by `±by` milli-units: each gets a uniformly drawn size class, a
/// position resampled until admissible (or the asteroid is skipped after
/// `PLACEMENT_TRIES` rejections), velocity components uniform within 100
/// units/s and angular velocity uniform within 5 rad/s.  Whatever the
/// draws, the returned field is well formed.
pub fn spawn_field(count: usize, bx: i64, by: i64, rng: &mut rand::rngs::ThreadRng) -> (r: Vec<
    Asteroid,
>)
    requires
        200000 <= bx <= 6000000,
        200000 <= by <= 6000000,
    ensures
        field_ok(r@, bx as int, by as int),
        r@.len() <= count,
{
    let mut field: Vec<Asteroid> = Vec::new();
    let mut i: usize = 0;
    while i < count
        invariant
            200000 <= bx <= 6000000,
            200000 <= by <= 6000000,
            field@.len() <= i <= count,
            field_ok(field@, bx as int, by as int),
        decreases count - i,
    {
        let size: AsteroidSize = match rand_in(rng, 0, 4) {
            0 => AsteroidSize::Tiny,
            1 => AsteroidSize::Small,
            2 => AsteroidSize::Medium,
            _ => AsteroidSize::Big,
        };
        let radius: u32 = size.radius();
        let mut found: Option<Vec2i> = None;
        let mut tries: usize = 0;
        while tries < PLACEMENT_TRIES && found.is_none()
            invariant
                200000 <= bx <= 6000000,
                200000 <= by <= 6000000,
                radius == radius_units(size),
                field_ok(field@, bx as int, by as int),
                found matches Some(p) ==> spec_pos_valid(field@, p, radius as int) && -bx <= p.x
                    <= bx && -by <= p.y <= by,
            decreases PLACEMENT_TRIES - tries,
        {
            let x: i64 = rand_in(rng, -bx, bx);
            let y: i64 = rand_in(rng, -by, by);
            let pos = Vec2i { x, y };
            proof {
                assert forall|k: int| 0 <= k < field@.len() implies in_bounds(
                    #[trigger] field@[k].pos,
                    COORD_LIMIT as int,
                ) by {
                    assert(asteroid_ok(field@[k], bx as int, by as int));
                }
            }
            if pos_is_valid(&field, pos, radius) {
                found = Some(pos);
            }
            tries = tries + 1;
        }
        match found {
            Some(pos) => {
                let sx: i64 = rand_in(rng, -100000, 100000);
                let sy: i64 = rand_in(rng, -100000, 100000);
                let rot: i64 = rand_in(rng, -5000, 5000);
                let a = Asteroid { pos, speed: Vec2i { x: sx, y: sy }, rot_speed: rot, size };
                proof {
                    assert(asteroid_ok(a, bx as int, by as int));
                    assert forall|k: int| 0 <= k < field@.len() implies separated(
                        #[trigger] field@[k],
                        a,
                    ) by {
                        assert(dist2(field@[k].pos, a.pos) > sep_threshold(
                            radius_units(field@[k].size),
                            radius_units(a.size),
                        ));
                    }
                }
                field.push(a);
            },
            None => {},
        }
        i += 1;
    }
    field
}

/// The spawn separation is symmetric in the two asteroids.
pub proof fn lemma_separated_sym(a: Asteroid, b: Asteroid)
    requires
        separated(a, b),
    ensures
        separated(b, a),
{
    assert((a.pos.x - b.pos.x) * (a.pos.x - b.pos.x) == (b.pos.x - a.pos.x) * (b.pos.x - a.pos.x)
        && (a.pos.y - b.pos.y) * (a.pos.y - b.pos.y) == (b.pos.y - a.pos.y) * (b.pos.y
        - a.pos.y)) by (nonlinear_arith);
}

/// The spawn-field guarantees in the terms of the stated properties: in a
/// well-formed field no two asteroid centers are closer than
/// `(r1 + r2) * sqrt(2)` (their squared distance strictly exceeds
/// `2 * ((r1 + r2) * 1000)^2`), and no center lies within 100 units of
/// the origin (its squared length is at least `100000^2`).
pub proof fn lemma_field_separation(s: Seq<Asteroid>, bx: int, by: int)
    requires
        field_ok(s, bx, by),
    ensures
        forall|i: int, j: int|
            0 <= i < j < s.len() ==> dist2(#[trigger] s[i].pos, #[trigger] s[j].pos)
                > sep_threshold(radius_units(s[i].size), radius_units(s[j].size)),
        forall|i: int|
            0 <= i < s.len() ==> crate::geom::norm_sq(#[trigger] s[i].pos) >= 10000000000,
{
    assert forall|i: int| 0 <= i < s.len() implies crate::geom::norm_sq(s[i].pos)
        >= 10000000000 by {
        assert(asteroid_ok(s[i], bx, by));
    }
    assert forall|i: int, j: int| 0 <= i < j < s.len() implies dist2(s[i].pos, s[j].pos)
        > sep_threshold(radius_units(s[i].size), radius_units(s[j].size)) by {
        assert(separated(s[i], s[j]));
    }
}

} // verus!
