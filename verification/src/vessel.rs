//! The player vessel: pose, lives, input-driven rotation and thrust,
//! firing with its cooldown, and the respawn-or-game-over decision taken
//! when its explosion finishes.

use vstd::prelude::*;
use crate::geom::{Vec2i, in_bounds, sin_milli, cos_milli, rot_units, sin_fp, cos_fp, rotate_units};
use crate::flow::{Flow, GameState, InputState};
use crate::laser::{Laser, LASER_FLY_TIME_MS};

verus! {

broadcast use vstd::string::to_string_from_display_ensures_for_str;

/// Sprite width of the vessel, in whole world units.
pub const VESSEL_WIDTH: i64 = 112;

/// Sprite height of the vessel, in whole world units.
pub const VESSEL_HEIGHT: i64 = 75;

/// Thrust impulse magnitude, in whole world units.
pub const VESSEL_THRUST_POWER: i64 = 10000;

/// Cooldown between trigger pulls, in milliseconds.
pub const FIRE_COOLDOWN_MS: u32 = 200;

/// Muzzle speed added to a fired laser along the heading, world units/s.
pub const LASER_SPEED: i64 = 1000;

/// The two muzzle X offsets, in whole world units along the sprite's
/// local X axis.
pub const MUZZLE_OFFSET_X: i64 = 22;

/// Muzzle Y offset, in whole world units along the sprite's local Y axis
/// (half the laser sprite's height).
pub const MUZZLE_OFFSET_Y: i64 = 27;

/// The player's vessel: identity, remaining lives, pose in milli-units
/// with the heading as a step count (each step pi/24, step 0 pointing
/// straight up), velocity in milli-units/s, visibility, and the firing
/// cooldown still to run down.
#[derive(Clone, Debug)]
pub struct Player {
    pub id: u64,
    pub name: String,
    pub lifes: u8,
    pub pos: Vec2i,
    pub heading: u32,
    pub speed: Vec2i,
    pub visible: bool,
    pub fire_cooldown_ms: u32,
}

/// A fresh vessel at the origin: three lives, pointing up, at rest,
/// visible, ready to fire.
pub fn setup_vessel(id: u64) -> (r: Player)
    ensures
        r.id == id,
        r.name@ == "Anakin"@,
        r.lifes == 3,
        r.pos == (Vec2i { x: 0, y: 0 }),
        r.heading == 0,
        r.speed == (Vec2i { x: 0, y: 0 }),
        r.visible,
        r.fire_cooldown_ms == 0,
{
    Player {
        id,
        name: "Anakin".to_string(),
        lifes: 3,
        pos: Vec2i { x: 0, y: 0 },
        heading: 0,
        speed: Vec2i { x: 0, y: 0 },
        visible: true,
        fire_cooldown_ms: 0,
    }
}

/// The net rotation steps one tick of held inputs produces: one step
/// counterclockwise for rotate-left, one clockwise for rotate-right, and
/// one per direction for a stick deflected past six tenths.
pub open spec fn rot_delta(input: InputState) -> int {
    (if input.rotate_left {
        1int
    } else {
        0int
    }) - (if input.rotate_right {
        1int
    } else {
        0int
    }) + (if input.axis_x_milli < -600 {
        1int
    } else {
        0int
    }) - (if input.axis_x_milli > 600 {
        1int
    } else {
        0int
    })
}

/// The vessel after one tick of rotation input.
pub open spec fn rotated_player(p: Player, input: InputState) -> Player {
    Player { heading: ((p.heading + 48 + rot_delta(input)) % 48) as u32, ..p }
}

/// Applies one tick of rotation input: the heading moves by the fixed
/// step pi/24 per held direction, never by an analog rate.
pub fn rotate_vessel(p: &mut Player, input: &InputState)
    requires
        old(p).heading < 48,
    ensures
        final(p).heading < 48,
        final(p).heading == (old(p).heading + 48 + rot_delta(*input)) % 48,
        *final(p) == (Player { heading: final(p).heading, ..*old(p) }),
        *final(p) == rotated_player(*old(p), *input),
{
    let mut delta: i64 = 0;
    if input.rotate_left {
        delta += 1;
    }
    if input.rotate_right {
        delta -= 1;
    }
    if input.axis_x_milli < -600 {
        delta += 1;
    }
    if input.axis_x_milli > 600 {
        delta -= 1;
    }
    let h: i64 = p.heading as i64 + 48 + delta;
    p.heading = (h % 48) as u32;
}

/// The impulse one tick of thrust applies: constant magnitude along the
/// heading, which points up at step 0, so the direction is
/// `(-sin h, cos h)`.  Components are in milli-units.
pub open spec fn thrust_vec(h: int) -> Vec2i {
    Vec2i {
        x: (-VESSEL_THRUST_POWER * sin_milli(h)) as i64,
        y: (VESSEL_THRUST_POWER * cos_milli(h)) as i64,
    }
}

/// Computes the thrust impulse for the vessel's current heading.
pub fn activate_thrust(p: &Player) -> (r: Vec2i)
    requires
        p.heading < 48,
    ensures
        r == thrust_vec(p.heading as int),
        in_bounds(r, 10000000),
{
    let s: i64 = sin_fp(p.heading);
    let c: i64 = cos_fp(p.heading);
    proof {
        assert(-10000000 <= -10000 * s <= 10000000 && -10000000 <= 10000 * c <= 10000000)
            by (nonlinear_arith)
            requires
                -1000 <= s <= 1000,
                -1000 <= c <= 1000,
        {
        }
    }
    Vec2i { x: -10000 * s, y: 10000 * c }
}

/// One tick of the thrust input: an impulse exactly when thrust is held,
/// none otherwise.
pub fn move_vessel(p: &Player, input: &InputState) -> (r: Option<Vec2i>)
    requires
        p.heading < 48,
    ensures
        r is Some <==> input.thrust,
        r matches Some(i) ==> i == thrust_vec(p.heading as int),
{
    if input.thrust {
        Some(activate_thrust(p))
    } else {
        None
    }
}

/// The firing cooldown after a tick of `dt` milliseconds.
pub open spec fn cooled(c: int, dt: int) -> int {
    if dt >= c {
        0
    } else {
        c - dt
    }
}

/// The laser fired from the muzzle at local offset `(mx, 27)` world
/// units: it starts at the vessel's position plus the offset rotated by
/// the heading, points the vessel's way, and inherits the vessel's
/// velocity plus the muzzle speed along the heading.
pub open spec fn muzzle_laser(p: Player, mx: int, id: u64) -> Laser {
    let off = rot_units(mx, MUZZLE_OFFSET_Y as int, p.heading as int);
    Laser {
        id,
        pos: Vec2i { x: (p.pos.x + off.x) as i64, y: (p.pos.y + off.y) as i64 },
        heading: p.heading,
        speed: Vec2i {
            x: (p.speed.x - LASER_SPEED * sin_milli(p.heading as int)) as i64,
            y: (p.speed.y + LASER_SPEED * cos_milli(p.heading as int)) as i64,
        },
        ttl_ms: LASER_FLY_TIME_MS,
    }
}

/// Whether one tick of the fire control fires: fire is held and the
/// cooldown, run down by `dt`, has elapsed.
pub open spec fn fires(p: Player, input: InputState, dt: int) -> bool {
    input.fire && cooled(p.fire_cooldown_ms as int, dt) == 0
}

/// The vessel after one tick of the fire control: the cooldown restarts
/// on a shot and otherwise just runs down.
pub open spec fn fired_player(p: Player, input: InputState, dt: int) -> Player {
    if fires(p, input, dt) {
        Player { fire_cooldown_ms: FIRE_COOLDOWN_MS, ..p }
    } else {
        Player { fire_cooldown_ms: cooled(p.fire_cooldown_ms as int, dt) as u32, ..p }
    }
}

/// The lasers one tick of the fire control spawns: the two muzzle lasers
/// on a shot, none otherwise.
pub open spec fn fired_lasers(p: Player, input: InputState, dt: int, next_id: u64) -> Seq<Laser> {
    if fires(p, input, dt) {
        seq![
            muzzle_laser(p, -MUZZLE_OFFSET_X as int, next_id),
            muzzle_laser(p, MUZZLE_OFFSET_X as int, (next_id + 1) as u64),
        ]
    } else {
        Seq::empty()
    }
}

/// One tick of the fire control: the cooldown runs down by `dt`; if fire
/// is held and the cooldown has elapsed, two lasers leave the two
/// symmetric muzzles and the cooldown restarts; otherwise nothing is
/// spawned.  The fresh lasers take ids `next_id` and `next_id + 1`.
pub fn fire_lasers(p: &mut Player, input: &InputState, dt_ms: u32, next_id: u64) -> (r: Option<
    (Laser, Laser),
>)
    requires
        old(p).heading < 48,
        in_bounds(old(p).pos, 8000000),
        in_bounds(old(p).speed, 4000000),
        next_id < 0xffff_ffff_ffff_fffe,
    ensures
        r is Some <==> (input.fire && cooled(old(p).fire_cooldown_ms as int, dt_ms as int) == 0),
        *final(p) == fired_player(*old(p), *input, dt_ms as int),
        r matches Some((l1, l2)) ==> seq![l1, l2] == fired_lasers(
            *old(p),
            *input,
            dt_ms as int,
            next_id,
        ),
        r is None ==> fired_lasers(*old(p), *input, dt_ms as int, next_id) == Seq::<Laser>::empty(),
        r is None ==> *final(p) == (Player {
            fire_cooldown_ms: cooled(old(p).fire_cooldown_ms as int, dt_ms as int) as u32,
            ..*old(p)
        }),
        r matches Some((l1, l2)) ==> {
            &&& *final(p) == (Player { fire_cooldown_ms: FIRE_COOLDOWN_MS, ..*old(p) })
            &&& l1 == muzzle_laser(*old(p), -MUZZLE_OFFSET_X as int, next_id)
            &&& l2 == muzzle_laser(*old(p), MUZZLE_OFFSET_X as int, (next_id + 1) as u64)
            &&& in_bounds(l1.pos, 8049000)
            &&& in_bounds(l2.pos, 8049000)
            &&& l1.ttl_ms == LASER_FLY_TIME_MS
            &&& l2.ttl_ms == LASER_FLY_TIME_MS
        },
{
    let cool: u32 = if dt_ms >= p.fire_cooldown_ms {
        0
    } else {
        p.fire_cooldown_ms - dt_ms
    };
    if input.fire && cool == 0 {
        p.fire_cooldown_ms = FIRE_COOLDOWN_MS;
        let s: i64 = sin_fp(p.heading);
        let c: i64 = cos_fp(p.heading);
        let off1: Vec2i = rotate_units(-MUZZLE_OFFSET_X, MUZZLE_OFFSET_Y, p.heading);
        let off2: Vec2i = rotate_units(MUZZLE_OFFSET_X, MUZZLE_OFFSET_Y, p.heading);
        let lvx: i64 = p.speed.x - LASER_SPEED * s;
        let lvy: i64 = p.speed.y + LASER_SPEED * c;
        let l1 = Laser {
            id: next_id,
            pos: Vec2i { x: p.pos.x + off1.x, y: p.pos.y + off1.y },
            heading: p.heading,
            speed: Vec2i { x: lvx, y: lvy },
            ttl_ms: LASER_FLY_TIME_MS,
        };
        let l2 = Laser {
            id: next_id + 1,
            pos: Vec2i { x: p.pos.x + off2.x, y: p.pos.y + off2.y },
            heading: p.heading,
            speed: Vec2i { x: lvx, y: lvy },
            ttl_ms: LASER_FLY_TIME_MS,
        };
        proof {
            // Each muzzle offset component is a combination of the 22 and
            // 27 unit offsets scaled by sine and cosine, so at most 49
            // units from the vessel.
            assert(in_bounds(off1, 49000) && in_bounds(off2, 49000)) by {
                assert(-1000 <= sin_milli(p.heading as int) <= 1000);
                assert(-1000 <= cos_milli(p.heading as int) <= 1000);
            }
        }
        Some((l1, l2))
    } else {
        p.fire_cooldown_ms = cool;
        None
    }
}

/// The decision at the end of the vessel's explosion: the vessel is
/// restored to the origin, at rest, pointing up and visible; with lives
/// left one is spent, with none left the flow is sent to GameOver
/// instead.
pub fn restart(p: &mut Player, flow: &mut Flow)
    ensures
        final(p).pos == (Vec2i { x: 0, y: 0 }),
        final(p).speed == (Vec2i { x: 0, y: 0 }),
        final(p).heading == 0,
        final(p).visible,
        final(p).id == old(p).id,
        final(p).name == old(p).name,
        final(p).fire_cooldown_ms == old(p).fire_cooldown_ms,
        old(p).lifes == 0 ==> final(p).lifes == 0 && final(flow).state == old(flow).state
            && final(flow).next == Some(GameState::GameOver),
        old(p).lifes > 0 ==> final(p).lifes == old(p).lifes - 1 && *final(flow) == *old(flow),
{
    p.visible = true;
    p.speed = Vec2i { x: 0, y: 0 };
    p.pos = Vec2i { x: 0, y: 0 };
    p.heading = 0;
    if p.lifes == 0 {
        flow.set_next(GameState::GameOver);
    } else {
        p.lifes = p.lifes - 1;
    }
}

} // verus!
