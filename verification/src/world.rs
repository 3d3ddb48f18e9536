//! The simulation world and its tick pipeline: an explicit, ordered run
//! of the per-tick stages — the flow boundary, menu or in-game input,
//! firing, collision resolution, laser expiry, explosion animation with
//! its follow-up effects, and the wrap — over exclusively owned entity
//! collections.

use vstd::prelude::*;
use crate::asteroid::{
    Asteroid,
    AsteroidEntity,
    AsteroidSize,
    asteroid_ok,
    field_ok,
    spawn_field,
    split,
    split_child,
    separated,
};
use crate::collision::{
    CollisionEvent,
    distinct_asteroids,
    distinct_lasers,
    fresh_explosion_ok,
    has_asteroid,
    has_laser,
    rs_wf,
    state_of,
    vessel_collisions,
};
use crate::explosion::{Explosion, ExplosionKind, EXPLOSION_LAST_FRAME, explosion_wf, step_explosion};
use crate::flow::{Flow, GameState, InputState, exit_to_menu, manage_inputs};
use crate::geom::{Vec2i, in_bounds};
use crate::laser::{Laser, laser_after_tick, restrict_lasers_range};
use crate::rng::rand_in;
use crate::vessel::{Player, fire_lasers, move_vessel, restart, rot_delta, rotate_vessel, setup_vessel, thrust_vec};
use crate::wrap::{WrapPolicy, wrap_asteroids, wrap_position, wrap_vessel};

verus! {

/// Width of the visible window, in milli-units (1280 units).
pub const WINDOW_WIDTH_MILLI: i64 = 1280000;

/// Height of the visible window, in milli-units (720 units).
pub const WINDOW_HEIGHT_MILLI: i64 = 720000;

/// How many asteroids a fresh field holds at most.
pub const ASTEROIDS_COUNT: usize = 200;

/// A live laser is inside the coordinate envelope, flies no faster than
/// vessel plus muzzle speed allow, and has flight time left.
pub open spec fn laser_ok(l: Laser) -> bool {
    &&& in_bounds(l.pos, 12000000)
    &&& in_bounds(l.speed, 6000000)
    &&& 1 <= l.ttl_ms <= 500
}

/// A live asteroid is inside the coordinate envelope.
pub open spec fn asteroid_ent_ok(a: AsteroidEntity) -> bool {
    &&& in_bounds(a.asteroid.pos, 12000000)
    &&& in_bounds(a.asteroid.speed, 12000000)
}

/// A live explosion is well formed, inside the coordinate envelope, and
/// its payload velocity is within the envelope too.
pub open spec fn explosion_ok(e: Explosion) -> bool {
    &&& explosion_wf(e)
    &&& in_bounds(e.pos, 12000000)
    &&& match e.kind {
        ExplosionKind::Player => true,
        ExplosionKind::AsteroidHit { asteroid, laser_velocity } => in_bounds(
            laser_velocity,
            16000000,
        ),
    }
}

/// A live vessel is inside the play envelope with a valid heading step.
pub open spec fn player_ok(p: Player) -> bool {
    &&& p.heading < 48
    &&& in_bounds(p.pos, 8000000)
    &&& in_bounds(p.speed, 4000000)
}

/// The simulation world: the flow controller, the wrap policy it was
/// configured with, and the exclusively owned entity collections, plus
/// the counter fresh entity ids are drawn from.
pub struct World {
    pub flow: Flow,
    pub policy: WrapPolicy,
    pub player: Option<Player>,
    pub asteroids: Vec<AsteroidEntity>,
    pub lasers: Vec<Laser>,
    pub explosions: Vec<Explosion>,
    pub next_id: u64,
    /// The session timer the HUD shows: milliseconds spent in game since
    /// the last entry, reset when a game begins.
    pub play_time_ms: u64,
}

/// The world invariant: every entity is well formed, all ids are below
/// the fresh-id counter, and no two entities share an id.
pub open spec fn world_wf(w: World) -> bool {
    &&& (w.player matches Some(p) ==> player_ok(p) && p.id < w.next_id)
    &&& distinct_lasers(w.lasers@)
    &&& distinct_asteroids(w.asteroids@)
    &&& forall|i: int|
        0 <= i < w.lasers@.len() ==> laser_ok(#[trigger] w.lasers@[i]) && w.lasers@[i].id
            < w.next_id
    &&& forall|i: int|
        0 <= i < w.asteroids@.len() ==> asteroid_ent_ok(#[trigger] w.asteroids@[i])
            && w.asteroids@[i].id < w.next_id
    &&& forall|i: int| 0 <= i < w.explosions@.len() ==> explosion_ok(#[trigger] w.explosions@[i])
    &&& (w.player matches Some(p) ==> !has_laser(w.lasers@, p.id) && !has_asteroid(
        w.asteroids@,
        p.id,
    ))
    &&& forall|i: int, j: int|
        0 <= i < w.lasers@.len() && 0 <= j < w.asteroids@.len() ==> (#[trigger] w.lasers@[i]).id
            != (#[trigger] w.asteroids@[j]).id
}

impl World {
    /// A fresh world at the menu, empty, under the chosen wrap policy.
    pub fn new(policy: WrapPolicy) -> (r: World)
        ensures
            world_wf(r),
            r.flow.state == GameState::Menu,
            r.flow.next is None,
            r.policy == policy,
            r.player is None,
            r.asteroids@.len() == 0,
            r.lasers@.len() == 0,
            r.explosions@.len() == 0,
            r.play_time_ms == 0,
    {
        World {
            flow: Flow::new(),
            policy,
            player: None,
            asteroids: Vec::new(),
            lasers: Vec::new(),
            explosions: Vec::new(),
            next_id: 1,
            play_time_ms: 0,
        }
    }
}

/// Entering the game: a fresh vessel at the origin and a fresh randomized
/// asteroid field, with no lasers and no explosions left over.
pub fn enter_game(w: &mut World, count: usize, rng: &mut rand::rngs::ThreadRng)
    requires
        world_wf(*old(w)),
        old(w).next_id + count + 1 < 0x7fff_ffff_ffff_ffff,
        count <= 1000000,
    ensures
        world_wf(*final(w)),
        final(w).flow == old(w).flow,
        final(w).policy == old(w).policy,
        old(w).next_id <= final(w).next_id <= old(w).next_id + count + 1,
        final(w).player matches Some(p) && p.lifes == 3 && p.pos == (Vec2i { x: 0, y: 0 })
            && p.heading == 0 && p.speed == (Vec2i { x: 0, y: 0 }) && p.visible && p.name@
            == "Anakin"@ && p.fire_cooldown_ms == 0,
        final(w).lasers@.len() == 0,
        final(w).explosions@.len() == 0,
        final(w).play_time_ms == 0,
        final(w).asteroids@.len() <= count,
        forall|i: int|
            0 <= i < final(w).asteroids@.len() ==> asteroid_ok(
                (#[trigger] final(w).asteroids@[i]).asteroid,
                3 * WINDOW_WIDTH_MILLI as int,
                3 * WINDOW_HEIGHT_MILLI as int,
            ),
        forall|i: int, j: int|
            0 <= i < j < final(w).asteroids@.len() ==> separated(
                (#[trigger] final(w).asteroids@[i]).asteroid,
                (#[trigger] final(w).asteroids@[j]).asteroid,
            ),
{
    w.lasers = Vec::new();
    w.explosions = Vec::new();
    w.play_time_ms = 0;
    let player_id: u64 = w.next_id;
    w.next_id = w.next_id + 1;
    w.player = Some(setup_vessel(player_id));
    let field: Vec<Asteroid> = spawn_field(
        count,
        3 * WINDOW_WIDTH_MILLI,
        3 * WINDOW_HEIGHT_MILLI,
        rng,
    );
    let mut entities: Vec<AsteroidEntity> = Vec::new();
    let base: u64 = w.next_id;
    let n: usize = field.len();
    let mut i: usize = 0;
    while i < n
        invariant
            n == field@.len(),
            i <= n,
            entities@.len() == i,
            field_ok(field@, 3 * WINDOW_WIDTH_MILLI as int, 3 * WINDOW_HEIGHT_MILLI as int),
            base + n < 0xffff_ffff_ffff_ffff,
            forall|k: int|
                0 <= k < i ==> (#[trigger] entities@[k]) == (AsteroidEntity {
                    id: (base + k) as u64,
                    asteroid: field@[k],
                }),
        decreases n - i,
    {
        let a: Asteroid = field[i];
        entities.push(AsteroidEntity { id: base + (i as u64), asteroid: a });
        i += 1;
    }
    w.next_id = base + (n as u64);
    w.asteroids = entities;
    proof {
        assert forall|k: int| 0 <= k < w.asteroids@.len() implies asteroid_ent_ok(
            #[trigger] w.asteroids@[k],
        ) && w.asteroids@[k].id < w.next_id by {
            assert(asteroid_ok(
                field@[k],
                3 * WINDOW_WIDTH_MILLI as int,
                3 * WINDOW_HEIGHT_MILLI as int,
            ));
        }
        assert forall|k: int, l: int| 0 <= k < l < w.asteroids@.len() implies (
        #[trigger] w.asteroids@[k]).id != (#[trigger] w.asteroids@[l]).id by {}
        if w.player is Some {
            let p = w.player->Some_0;
            assert(!has_asteroid(w.asteroids@, p.id)) by {
                if has_asteroid(w.asteroids@, p.id) {
                    let j = choose|j: int|
                        0 <= j < w.asteroids@.len() && (#[trigger] w.asteroids@[j]).id == p.id;
                }
            }
        }
    }
}

/// Leaving the game: every in-game entity — vessel, asteroids, lasers,
/// explosions — is despawned synchronously, with nothing half torn down
/// left behind.
pub fn exit_game(w: &mut World)
    ensures
        world_wf(*final(w)),
        final(w).flow == old(w).flow,
        final(w).policy == old(w).policy,
        final(w).next_id == old(w).next_id,
        final(w).play_time_ms == old(w).play_time_ms,
        final(w).player is None,
        final(w).asteroids@.len() == 0,
        final(w).lasers@.len() == 0,
        final(w).explosions@.len() == 0,
{
    w.player = None;
    w.asteroids = Vec::new();
    w.lasers = Vec::new();
    w.explosions = Vec::new();
}

/// A fragment with its position re-entered through the per-object wrap,
/// which keeps it inside the coordinate envelope.
pub open spec fn wrap_fragment(a: Asteroid) -> Asteroid {
    Asteroid {
        pos: crate::wrap::wrap_pos(
            a.pos,
            4 * WINDOW_WIDTH_MILLI as int,
            4 * WINDOW_HEIGHT_MILLI as int,
        ),
        ..a
    }
}

/// Two world entities are the two fragments of a split of `size` at
/// `center` under impact velocity `vel`: for some speed draws and a
/// shared spin in the documented ranges, they are exactly `split`'s
/// fragments — next size down, offset by the child radius along the
/// impact heading, velocities along its two perpendiculars — wrapped
/// into the envelope and carrying the consecutive fresh ids `id0` and
/// `id0 + 1`.
pub open spec fn fragments_of(
    e1: AsteroidEntity,
    e2: AsteroidEntity,
    id0: u64,
    size: AsteroidSize,
    center: Vec2i,
    vel: Vec2i,
) -> bool {
    exists|s1: int, s2: int, rot: int|
        #![auto]
        {
            &&& 150 <= s1 < 250
            &&& 150 <= s2 < 250
            &&& -5000 <= rot <= 5000
            &&& e1 == (AsteroidEntity {
                id: id0,
                asteroid: wrap_fragment(
                    crate::asteroid::split_fragment1(size, center, vel, s1, rot),
                ),
            })
            &&& e2 == (AsteroidEntity {
                id: (id0 + 1) as u64,
                asteroid: wrap_fragment(
                    crate::asteroid::split_fragment2(size, center, vel, s2, rot),
                ),
            })
        }
}

/// Spawns the two fragments of a destroyed Medium or Big asteroid at the
/// blast point, drawing the fragment speeds and the shared angular
/// velocity at random; smaller sizes spawn nothing.  Fragment positions
/// re-enter through the per-object wrap like every body, so they stay in
/// the envelope.
pub fn spawn_splited_asteroids(
    asteroids: &mut Vec<AsteroidEntity>,
    next_id: &mut u64,
    rng: &mut rand::rngs::ThreadRng,
    center: Vec2i,
    laser_vel: Vec2i,
    size: AsteroidSize,
)
    requires
        in_bounds(center, 12000000),
        in_bounds(laser_vel, 16000000),
        *old(next_id) + 2 < 0xffff_ffff_ffff_ffff,
        distinct_asteroids(old(asteroids)@),
        forall|i: int|
            0 <= i < old(asteroids)@.len() ==> asteroid_ent_ok(#[trigger] old(asteroids)@[i])
                && old(asteroids)@[i].id < *old(next_id),
    ensures
        *old(next_id) <= *final(next_id) <= *old(next_id) + 2,
        distinct_asteroids(final(asteroids)@),
        forall|i: int|
            0 <= i < final(asteroids)@.len() ==> asteroid_ent_ok(#[trigger] final(asteroids)@[i])
                && final(asteroids)@[i].id < *final(next_id),
        forall|i: int|
            0 <= i < old(asteroids)@.len() ==> #[trigger] final(asteroids)@[i] == old(
                asteroids,
            )@[i],
        split_child(size) is None ==> final(asteroids)@ == old(asteroids)@ && *final(next_id)
            == *old(next_id),
        split_child(size) is Some ==> final(asteroids)@.len() == old(asteroids)@.len() + 2
            && *final(next_id) == *old(next_id) + 2,
        split_child(size) is Some ==> fragments_of(
            final(asteroids)@[old(asteroids)@.len() as int],
            final(asteroids)@[old(asteroids)@.len() as int + 1],
            *old(next_id),
            size,
            center,
            laser_vel,
        ),
        forall|i: int|
            old(asteroids)@.len() <= i < final(asteroids)@.len() ==> (
            #[trigger] final(asteroids)@[i]).id >= *old(next_id),
{
    let s1: i64 = rand_in(rng, 150, 250);
    let s2: i64 = rand_in(rng, 150, 250);
    let rot: i64 = rand_in(rng, -5000, 5000);
    match split(size, center, laser_vel, s1, s2, rot) {
        None => {},
        Some((a1, a2)) => {
            let w1: Vec2i = wrap_position(
                a1.pos,
                4 * WINDOW_WIDTH_MILLI,
                4 * WINDOW_HEIGHT_MILLI,
            );
            let w2: Vec2i = wrap_position(
                a2.pos,
                4 * WINDOW_WIDTH_MILLI,
                4 * WINDOW_HEIGHT_MILLI,
            );
            let e1 = AsteroidEntity { id: *next_id, asteroid: Asteroid { pos: w1, ..a1 } };
            let e2 = AsteroidEntity {
                id: *next_id + 1,
                asteroid: Asteroid { pos: w2, ..a2 },
            };
            proof {
                assert forall|k: int| 0 <= k < asteroids@.len() implies (
                #[trigger] asteroids@[k]).id != e1.id && asteroids@[k].id != e2.id by {}
                assert(e1.asteroid == wrap_fragment(
                    crate::asteroid::split_fragment1(size, center, laser_vel, s1 as int, rot as int),
                ));
                assert(e2.asteroid == wrap_fragment(
                    crate::asteroid::split_fragment2(size, center, laser_vel, s2 as int, rot as int),
                ));
            }
            asteroids.push(e1);
            asteroids.push(e2);
            *next_id = *next_id + 2;
            proof {
                assert(fragments_of(
                    asteroids@[asteroids@.len() - 2],
                    asteroids@[asteroids@.len() - 1],
                    e1.id,
                    size,
                    center,
                    laser_vel,
                )) by {
                    assert(asteroids@[asteroids@.len() - 2] == e1);
                    assert(asteroids@[asteroids@.len() - 1] == e2);
                }
            }
        },
    }
}

/// The explosions of `s` up to index `n` that survive a tick of `dt`,
/// each advanced, in order; a player explosion re-tracks `track`.
pub open spec fn kept_prefix(s: Seq<Explosion>, dt: int, track: Vec2i, n: int) -> Seq<Explosion>
    decreases n,
{
    if n <= 0 {
        Seq::empty()
    } else {
        let rest = kept_prefix(s, dt, track, n - 1);
        match step_explosion(s[n - 1], dt, track) {
            Some(e2) => rest.push(e2),
            None => rest,
        }
    }
}

/// The explosions of `s` up to index `n` that complete on a tick of
/// `dt`, unchanged, in order.
pub open spec fn done_prefix(s: Seq<Explosion>, dt: int, track: Vec2i, n: int) -> Seq<Explosion>
    decreases n,
{
    if n <= 0 {
        Seq::empty()
    } else {
        let rest = done_prefix(s, dt, track, n - 1);
        match step_explosion(s[n - 1], dt, track) {
            Some(_) => rest,
            None => rest.push(s[n - 1]),
        }
    }
}

/// How many of the first `n` completed explosions are player explosions.
pub open spec fn count_player(s: Seq<Explosion>, n: int) -> nat
    decreases n,
{
    if n <= 0 {
        0
    } else {
        count_player(s, n - 1) + if s[n - 1].kind is Player {
            1nat
        } else {
            0nat
        }
    }
}

/// How many of the first `n` completed explosions carry a Medium or Big
/// asteroid, each of which must split into two fragments.
pub open spec fn count_splitting(s: Seq<Explosion>, n: int) -> nat
    decreases n,
{
    if n <= 0 {
        0
    } else {
        count_splitting(s, n - 1) + (match s[n - 1].kind {
            ExplosionKind::AsteroidHit { asteroid, laser_velocity } => {
                if split_child(asteroid.size) is Some {
                    1nat
                } else {
                    0nat
                }
            },
            ExplosionKind::Player => 0nat,
        })
    }
}

/// Two consecutive world entities are the fragment pair of one of the
/// completed explosions: some completed asteroid explosion whose payload
/// splits produced them, per `fragments_of`, at its blast point, under
/// its remembered impact velocity.
pub open spec fn fragment_pair_from(
    e1: AsteroidEntity,
    e2: AsteroidEntity,
    done: Seq<Explosion>,
) -> bool {
    exists|j: int|
        #![trigger done[j]]
        0 <= j < done.len() && (match done[j].kind {
            ExplosionKind::AsteroidHit { asteroid, laser_velocity } => fragments_of(
                e1,
                e2,
                e1.id,
                asteroid.size,
                done[j].pos,
                laser_velocity,
            ),
            ExplosionKind::Player => false,
        })
}

/// The vessel and the flow after one completed player explosion, exactly
/// as `restart` leaves them.
pub open spec fn restarted(p0: Player, f0: Flow, p: Player, f: Flow) -> bool {
    &&& p.pos == (Vec2i { x: 0, y: 0 })
    &&& p.speed == (Vec2i { x: 0, y: 0 })
    &&& p.heading == 0
    &&& p.visible
    &&& p.id == p0.id
    &&& p.name == p0.name
    &&& p.fire_cooldown_ms == p0.fire_cooldown_ms
    &&& (p0.lifes == 0 ==> p.lifes == 0 && f == (Flow {
        state: f0.state,
        next: Some(GameState::GameOver),
    }))
    &&& (p0.lifes > 0 ==> p.lifes == p0.lifes - 1 && f == f0)
}

/// Splits the explosion list into the survivors of a tick, advanced, and
/// those that completed.
fn animate_pass(explosions: &Vec<Explosion>, dt: u32, track: Vec2i) -> (r: (
    Vec<Explosion>,
    Vec<Explosion>,
))
    requires
        forall|k: int| 0 <= k < explosions@.len() ==> explosion_wf(#[trigger] explosions@[k]),
        dt <= 1000000,
    ensures
        r.0@ == kept_prefix(explosions@, dt as int, track, explosions@.len() as int),
        r.1@ == done_prefix(explosions@, dt as int, track, explosions@.len() as int),
        r.0@.len() + r.1@.len() == explosions@.len(),
        forall|k: int|
            0 <= k < r.0@.len() ==> explosion_wf(#[trigger] r.0@[k]) && (r.0@[k].pos == track
                || exists|j: int|
                0 <= j < explosions@.len() && r.0@[k].pos == (#[trigger] explosions@[j]).pos)
                && exists|j: int|
                0 <= j < explosions@.len() && r.0@[k].kind == (#[trigger] explosions@[j]).kind,
        forall|k: int|
            0 <= k < r.1@.len() ==> explosions@.contains(#[trigger] r.1@[k]),
{
    let n: usize = explosions.len();
    let mut kept: Vec<Explosion> = Vec::new();
    let mut done: Vec<Explosion> = Vec::new();
    let mut i: usize = 0;
    while i < n
        invariant
            n == explosions@.len(),
            i <= n,
            dt <= 1000000,
            forall|k: int| 0 <= k < n ==> explosion_wf(#[trigger] explosions@[k]),
            kept@ == kept_prefix(explosions@, dt as int, track, i as int),
            done@ == done_prefix(explosions@, dt as int, track, i as int),
            kept@.len() + done@.len() == i,
            forall|k: int|
                0 <= k < kept@.len() ==> explosion_wf(#[trigger] kept@[k]) && (kept@[k].pos
                    == track || exists|j: int|
                    0 <= j < n && kept@[k].pos == (#[trigger] explosions@[j]).pos) && exists|
                    j: int,
                |
                    0 <= j < n && kept@[k].kind == (#[trigger] explosions@[j]).kind,
            forall|k: int| 0 <= k < done@.len() ==> explosions@.contains(#[trigger] done@[k]),
        decreases n - i,
    {
        let e: Explosion = explosions[i];
        match crate::explosion::animate_explosion(&e, dt, track) {
            Some(e2) => {
                proof {
                    assert(e2.pos == track || e2.pos == explosions@[i as int].pos);
                    assert(e2.kind == explosions@[i as int].kind);
                }
                kept.push(e2);
            },
            None => {
                proof {
                    assert(explosions@.contains(explosions@[i as int]));
                }
                done.push(e);
            },
        }
        i += 1;
    }
    (kept, done)
}

/// The explosion sequencer pass: every explosion advances by `dt`; those
/// that complete despawn and trigger their follow-up exactly once — a
/// vessel respawn-or-game-over for a player explosion, an asteroid split
/// for a Medium or Big asteroid explosion.
pub fn animate_explosions(w: &mut World, dt: u32, rng: &mut rand::rngs::ThreadRng)
    requires
        world_wf(*old(w)),
        1 <= dt <= 100000,
        old(w).next_id + 2 * old(w).explosions@.len() < 0x7fff_ffff_ffff_ffff,
    ensures
        world_wf(*final(w)),
        final(w).policy == old(w).policy,
        final(w).flow.state == old(w).flow.state,
        final(w).lasers == old(w).lasers,
        final(w).next_id >= old(w).next_id,
        final(w).play_time_ms == old(w).play_time_ms,
        old(w).player is Some ==> final(w).player is Some,
        final(w).explosions@.len() <= old(w).explosions@.len(),
        final(w).explosions@ == kept_prefix(
            old(w).explosions@,
            dt as int,
            track_of(*old(w)),
            old(w).explosions@.len() as int,
        ),
        forall|i: int|
            0 <= i < old(w).asteroids@.len() ==> #[trigger] final(w).asteroids@[i] == old(
                w,
            ).asteroids@[i],
        final(w).asteroids@.len() == old(w).asteroids@.len() + 2 * count_splitting(
            done_prefix(
                old(w).explosions@,
                dt as int,
                track_of(*old(w)),
                old(w).explosions@.len() as int,
            ),
            done_prefix(
                old(w).explosions@,
                dt as int,
                track_of(*old(w)),
                old(w).explosions@.len() as int,
            ).len() as int,
        ),
        ({
            let done = done_prefix(
                old(w).explosions@,
                dt as int,
                track_of(*old(w)),
                old(w).explosions@.len() as int,
            );
            let c = count_player(done, done.len() as int);
            &&& (c == 0 ==> final(w).player == old(w).player && final(w).flow == old(w).flow)
            &&& ((c == 1 && old(w).player is Some) ==> (final(w).player matches Some(p)
                && restarted(old(w).player->Some_0, old(w).flow, p, final(w).flow)))
            &&& ((c >= 1 && old(w).player is Some) ==> (final(w).player matches Some(p) && p.pos
                == (Vec2i { x: 0, y: 0 }) && p.speed == (Vec2i { x: 0, y: 0 }) && p.heading == 0
                && p.visible && p.id == old(w).player->Some_0.id && p.name == old(
                w,
            ).player->Some_0.name && p.fire_cooldown_ms == old(w).player->Some_0.fire_cooldown_ms
                && p.lifes <= old(w).player->Some_0.lifes))
            &&& (old(w).player is None ==> final(w).player is None && final(w).flow == old(
                w,
            ).flow)
            &&& forall|k: int|
                old(w).asteroids@.len() <= k && k + 1 < final(w).asteroids@.len() && (k - old(
                    w,
                ).asteroids@.len()) % 2 == 0 ==> fragment_pair_from(
                    #[trigger] final(w).asteroids@[k],
                    final(w).asteroids@[k + 1],
                    done,
                )
        }),
{
    let track: Vec2i = match &w.player {
        Some(p) => p.pos,
        None => Vec2i { x: 0, y: 0 },
    };
    let ghost w0 = *w;
    let (kept, done) = animate_pass(&w.explosions, dt, track);
    w.explosions = kept;
    proof {
        assert(track == track_of(w0));
        assert forall|k: int| 0 <= k < w.explosions@.len() implies explosion_ok(
            #[trigger] w.explosions@[k],
        ) by {
            let e = w.explosions@[k];
            if e.pos == track {
            } else {
                let j = choose|j: int|
                    0 <= j < w0.explosions@.len() && e.pos == (#[trigger] w0.explosions@[j]).pos;
                assert(explosion_ok(w0.explosions@[j]));
            }
            let j2 = choose|j2: int|
                0 <= j2 < w0.explosions@.len() && e.kind == (#[trigger] w0.explosions@[j2]).kind;
            assert(explosion_ok(w0.explosions@[j2]));
            if w0.player is Some {
                assert(player_ok(w0.player->Some_0));
            }
        }
    }
    let m: usize = done.len();
    let mut i: usize = 0;
    while i < m
        invariant
            w0 == *old(w),
            world_wf(w0),
            m <= w0.explosions@.len(),
            m == done@.len(),
            done@ == done_prefix(
                w0.explosions@,
                dt as int,
                track_of(w0),
                w0.explosions@.len() as int,
            ),
            i <= m,
            world_wf(*w),
            w.policy == w0.policy,
            w.flow.state == w0.flow.state,
            w.lasers == w0.lasers,
            w.play_time_ms == w0.play_time_ms,
            w.explosions@ == kept_prefix(
                w0.explosions@,
                dt as int,
                track_of(w0),
                w0.explosions@.len() as int,
            ),
            forall|k: int| 0 <= k < done@.len() ==> w0.explosions@.contains(#[trigger] done@[k]),
            forall|k: int|
                0 <= k < w0.asteroids@.len() ==> #[trigger] w.asteroids@[k] == w0.asteroids@[k],
            w.asteroids@.len() == w0.asteroids@.len() + 2 * count_splitting(done@, i as int),
            w0.next_id <= w.next_id,
            w.next_id + 2 * (m - i) < 0x7fff_ffff_ffff_ffff,
            count_player(done@, i as int) == 0 ==> w.player == w0.player && w.flow == w0.flow,
            (count_player(done@, i as int) == 1 && w0.player is Some) ==> (
            w.player matches Some(p) && restarted(w0.player->Some_0, w0.flow, p, w.flow)),
            (count_player(done@, i as int) >= 1 && w0.player is Some) ==> (
            w.player matches Some(p) && p.pos == (Vec2i { x: 0, y: 0 }) && p.speed == (Vec2i {
                x: 0,
                y: 0,
            }) && p.heading == 0 && p.visible && p.name == w0.player->Some_0.name
                && p.fire_cooldown_ms == w0.player->Some_0.fire_cooldown_ms && p.lifes
                <= w0.player->Some_0.lifes),
            w0.player is None ==> w.player is None && w.flow == w0.flow,
            w0.player matches Some(q0) ==> (w.player matches Some(q) && q.id == q0.id),
            forall|k: int|
                w0.asteroids@.len() <= k && k + 1 < w.asteroids@.len() && (k
                    - w0.asteroids@.len()) % 2 == 0 ==> fragment_pair_from(
                    #[trigger] w.asteroids@[k],
                    w.asteroids@[k + 1],
                    done@,
                ),
        decreases m - i,
    {
        let d: Explosion = done[i];
        proof {
            assert(w0.explosions@.contains(done@[i as int]));
            let j = choose|j: int|
                0 <= j < w0.explosions@.len() && w0.explosions@[j] == done@[i as int];
            assert(explosion_ok(w0.explosions@[j]));
        }
        match d.kind {
            ExplosionKind::Player => {
                match &mut w.player {
                    Some(p) => {
                        restart(p, &mut w.flow);
                    },
                    None => {},
                }
            },
            ExplosionKind::AsteroidHit { asteroid, laser_velocity } => {
                let ghost pre_n = w.asteroids@.len() as int;
                let ghost pre_id = w.next_id;
                spawn_splited_asteroids(
                    &mut w.asteroids,
                    &mut w.next_id,
                    rng,
                    d.pos,
                    laser_velocity,
                    asteroid.size,
                );
                proof {
                    if split_child(asteroid.size) is Some {
                        let e1 = w.asteroids@[pre_n];
                        let e2 = w.asteroids@[pre_n + 1];
                        assert(fragments_of(e1, e2, pre_id, asteroid.size, d.pos, laser_velocity));
                        let (s1v, s2v, rotv): (int, int, int) = choose|s1: int, s2: int, rot: int|
                            #![auto]
                            {
                                &&& 150 <= s1 < 250
                                &&& 150 <= s2 < 250
                                &&& -5000 <= rot <= 5000
                                &&& e1 == (AsteroidEntity {
                                    id: pre_id,
                                    asteroid: wrap_fragment(
                                        crate::asteroid::split_fragment1(
                                            asteroid.size,
                                            d.pos,
                                            laser_velocity,
                                            s1,
                                            rot,
                                        ),
                                    ),
                                })
                                &&& e2 == (AsteroidEntity {
                                    id: (pre_id + 1) as u64,
                                    asteroid: wrap_fragment(
                                        crate::asteroid::split_fragment2(
                                            asteroid.size,
                                            d.pos,
                                            laser_velocity,
                                            s2,
                                            rot,
                                        ),
                                    ),
                                })
                            };
                        assert(e1.id == pre_id);
                        assert(fragments_of(e1, e2, e1.id, asteroid.size, d.pos, laser_velocity));
                        assert(done@[i as int].kind == d.kind);
                        assert(fragment_pair_from(e1, e2, done@)) by {
                            assert(0 <= i < done@.len() && (match done@[i as int].kind {
                                ExplosionKind::AsteroidHit { asteroid: a2, laser_velocity: lv2 } =>
                                    fragments_of(
                                        e1,
                                        e2,
                                        e1.id,
                                        a2.size,
                                        done@[i as int].pos,
                                        lv2,
                                    ),
                                ExplosionKind::Player => false,
                            }));
                        }
                    }
                    if w.player is Some {
                        let p = w.player->Some_0;
                        assert(!has_asteroid(w.asteroids@, p.id)) by {
                            if has_asteroid(w.asteroids@, p.id) {
                                let j = choose|j: int|
                                    0 <= j < w.asteroids@.len() && (#[trigger] w.asteroids@[j]).id
                                        == p.id;
                                if j < w0.asteroids@.len() as int {
                                    assert(has_asteroid(w0.asteroids@, p.id));
                                }
                            }
                        }
                    }
                    assert forall|a: int, b: int|
                        0 <= a < w.lasers@.len() && 0 <= b < w.asteroids@.len() implies (
                    #[trigger] w.lasers@[a]).id != (#[trigger] w.asteroids@[b]).id by {
                        if b < w0.asteroids@.len() as int {
                        } else {
                            assert(laser_ok(w.lasers@[a]) && w.lasers@[a].id < w0.next_id);
                        }
                    }
                }
            },
        }
        i += 1;
    }
}

/// Explosions that have not yet reached their last frame all survive a
/// tick: none completes, so nothing follows from them.
pub proof fn lemma_done_empty(s: Seq<Explosion>, dt: int, track: Vec2i, n: int)
    requires
        0 <= n <= s.len(),
        forall|k: int| 0 <= k < s.len() ==> (#[trigger] s[k]).frame < EXPLOSION_LAST_FRAME,
    ensures
        done_prefix(s, dt, track, n) == Seq::<Explosion>::empty(),
    decreases n,
{
    if n > 0 {
        lemma_done_empty(s, dt, track, n - 1);
        assert(s[n - 1].frame < EXPLOSION_LAST_FRAME);
    }
}

/// Survivors of a pass over a pairwise separated field are still
/// pairwise separated: two distinct survivors carry distinct ids, so
/// they stem from two distinct members of the original field.
pub proof fn lemma_separated_subset(s0: Seq<AsteroidEntity>, s1: Seq<AsteroidEntity>)
    requires
        distinct_asteroids(s1),
        forall|k: int| 0 <= k < s1.len() ==> s0.contains(#[trigger] s1[k]),
        forall|i: int, j: int|
            0 <= i < j < s0.len() ==> separated(
                (#[trigger] s0[i]).asteroid,
                (#[trigger] s0[j]).asteroid,
            ),
    ensures
        forall|i: int, j: int|
            0 <= i < j < s1.len() ==> separated(
                (#[trigger] s1[i]).asteroid,
                (#[trigger] s1[j]).asteroid,
            ),
{
    assert forall|i: int, j: int| 0 <= i < j < s1.len() implies separated(
        (#[trigger] s1[i]).asteroid,
        (#[trigger] s1[j]).asteroid,
    ) by {
        let j1 = choose|j1: int| 0 <= j1 < s0.len() && s0[j1] == s1[i];
        let j2 = choose|j2: int| 0 <= j2 < s0.len() && s0[j2] == s1[j];
        assert(s0.contains(s1[i]) && s0.contains(s1[j]));
        assert(s1[i].id != s1[j].id);
        if j1 < j2 {
            assert(separated(s0[j1].asteroid, s0[j2].asteroid));
        } else {
            assert(j2 < j1);
            assert(separated(s0[j2].asteroid, s0[j1].asteroid));
            crate::asteroid::lemma_separated_sym(s0[j2].asteroid, s0[j1].asteroid);
        }
    }
}

/// The vessel position explosions track: the player's, or the origin
/// when no vessel exists.
pub open spec fn track_of(w: World) -> Vec2i {
    match w.player {
        Some(p) => p.pos,
        None => Vec2i { x: 0, y: 0 },
    }
}

/// What one tick hands back to the embedding: whether the process should
/// quit, and the thrust impulse the physics collaborator must apply to
/// the vessel's body this tick, if any.
#[derive(Clone, Copy, Debug, PartialEq, Eq, Structural)]
pub struct TickOutput {
    pub exit_app: bool,
    pub impulse: Option<Vec2i>,
}

/// The state the flow shows for the whole of a tick: the pending
/// transition applied at the boundary.
pub open spec fn boundary_state(f: Flow) -> GameState {
    match f.next {
        Some(s) => s,
        None => f.state,
    }
}

/// Where one in-game tick stands after its first three stages — the
/// rotation step, the fire control, and the collision-event fold — as a
/// function of the state the tick began with.  Laser expiry, the
/// explosion pass and the wrap follow from here.
pub open spec fn after_collisions(
    p0: Player,
    lasers0: Seq<Laser>,
    asteroids0: Seq<AsteroidEntity>,
    explosions0: Seq<Explosion>,
    next_id0: u64,
    input: InputState,
    dt: int,
    events: Seq<CollisionEvent>,
) -> crate::collision::ResolveState {
    let p1 = crate::vessel::rotated_player(p0, input);
    let p2 = crate::vessel::fired_player(p1, input, dt);
    let newl = crate::vessel::fired_lasers(p1, input, dt, next_id0);
    crate::collision::resolve_upto(
        state_of(
            p2,
            lasers0 + newl,
            asteroids0,
            explosions0,
            next_id0 + newl.len(),
            Seq::empty(),
        ),
        events,
        events.len() as int,
    )
}

/// One simulation tick, the stages in their fixed order: the flow
/// boundary first (entering the game builds the field and the vessel,
/// leaving it tears every in-game entity down), then — gated on the
/// state — the menu input pass, or the in-game pipeline: rotation,
/// thrust, firing, collision resolution, laser expiry, the explosion
/// sequencer with its follow-up effects, and finally the wrap under the
/// configured policy.  In Paused nothing runs.  The physics
/// collaborator's integration happens outside, between ticks; its
/// collision events for this tick come in as `events`.
/// The in-game pipeline for a tick on which a vessel exists: the
/// rotation step, the thrust decision, the fire control, the
/// collision-event fold, laser expiry, the explosion pass with its
/// follow-up effects, and the wrap under the configured policy, in that
/// order.  The composed effect is pinned against the stage
/// specifications, exactly when no player explosion completes this tick.
#[verifier::rlimit(100)]
fn ingame_stage(
    w: &mut World,
    input: &InputState,
    dt_ms: u32,
    events: &Vec<CollisionEvent>,
    rng: &mut rand::rngs::ThreadRng,
) -> (imp: Option<Vec2i>)
    requires
        world_wf(*old(w)),
        old(w).player is Some,
        1 <= dt_ms <= 100000,
        old(w).next_id < 0x4000_0000_0000_1000,
        events@.len() < 0x1000_0000,
        old(w).explosions@.len() < 0x1000_0000,
    ensures
        world_wf(*final(w)),
        final(w).policy == old(w).policy,
        final(w).flow.state == old(w).flow.state,
        final(w).play_time_ms == old(w).play_time_ms,
        ({
            let p0 = old(w).player->Some_0;
            let sc = after_collisions(
                p0,
                old(w).lasers@,
                old(w).asteroids@,
                old(w).explosions@,
                old(w).next_id,
                *input,
                dt_ms as int,
                events@,
            );
            let lasers2 = crate::laser::expire_lasers(sc.lasers, dt_ms as int);
            let done2 = done_prefix(sc.explosions, dt_ms as int, p0.pos, sc.explosions.len() as int);
            let c = count_player(done2, done2.len() as int);
            &&& final(w).explosions@ == kept_prefix(
                sc.explosions,
                dt_ms as int,
                p0.pos,
                sc.explosions.len() as int,
            )
            &&& final(w).asteroids@.len() == sc.asteroids.len() + 2 * count_splitting(
                done2,
                done2.len() as int,
            )
            &&& imp == (if input.thrust {
                Some(thrust_vec(crate::vessel::rotated_player(p0, *input).heading as int))
            } else {
                None::<Vec2i>
            })
            &&& sc.lasers.len() <= old(w).lasers@.len() + 2
            &&& sc.asteroids.len() <= old(w).asteroids@.len()
            &&& lasers2.len() <= sc.lasers.len()
            &&& sc.player == (Player {
                visible: sc.player.visible,
                ..crate::vessel::fired_player(
                    crate::vessel::rotated_player(p0, *input),
                    *input,
                    dt_ms as int,
                )
            })
            &&& forall|k: int|
                0 <= k < old(w).explosions@.len() ==> sc.explosions[k] == old(w).explosions@[k]
            &&& forall|k: int|
                old(w).explosions@.len() <= k < sc.explosions.len() ==> (
                #[trigger] sc.explosions[k]).frame == 0
            &&& forall|k: int|
                0 <= k < sc.asteroids.len() ==> old(w).asteroids@.contains(
                    #[trigger] sc.asteroids[k],
                )
            &&& (c == 0 ==> ({
                &&& final(w).flow == old(w).flow
                &&& (old(w).policy == WrapPolicy::PerObject ==> ({
                    &&& final(w).lasers@ == lasers2
                    &&& final(w).player == Some(
                        Player {
                            pos: crate::wrap::wrap_pos(
                                sc.player.pos,
                                4 * WINDOW_WIDTH_MILLI as int,
                                4 * WINDOW_HEIGHT_MILLI as int,
                            ),
                            ..sc.player
                        },
                    )
                    &&& forall|i: int|
                        0 <= i < sc.asteroids.len() ==> #[trigger] final(w).asteroids@[i]
                            == (AsteroidEntity {
                            asteroid: Asteroid {
                                pos: crate::wrap::wrap_pos(
                                    sc.asteroids[i].asteroid.pos,
                                    4 * WINDOW_WIDTH_MILLI as int,
                                    4 * WINDOW_HEIGHT_MILLI as int,
                                ),
                                ..sc.asteroids[i].asteroid
                            },
                            ..sc.asteroids[i]
                        })
                }))
                &&& (old(w).policy == WrapPolicy::VesselRelative ==> ({
                    &&& final(w).player == Some(
                        Player {
                            pos: Vec2i {
                                x: crate::wrap::wrap_coord(
                                    sc.player.pos.x as int,
                                    3 * WINDOW_WIDTH_MILLI as int,
                                ) as i64,
                                y: crate::wrap::wrap_coord(
                                    sc.player.pos.y as int,
                                    3 * WINDOW_HEIGHT_MILLI as int,
                                ) as i64,
                            },
                            ..sc.player
                        },
                    )
                    &&& final(w).lasers@.len() == lasers2.len()
                    &&& forall|i: int|
                        0 <= i < lasers2.len() ==> #[trigger] final(w).lasers@[i] == (Laser {
                            pos: crate::wrap::shifted_pos(
                                lasers2[i].pos,
                                sc.player.pos,
                                WINDOW_WIDTH_MILLI as int,
                                WINDOW_HEIGHT_MILLI as int,
                            ),
                            ..lasers2[i]
                        })
                    &&& forall|i: int|
                        0 <= i < sc.asteroids.len() ==> #[trigger] final(w).asteroids@[i]
                            == (AsteroidEntity {
                            asteroid: Asteroid {
                                pos: crate::wrap::shifted_pos(
                                    sc.asteroids[i].asteroid.pos,
                                    sc.player.pos,
                                    WINDOW_WIDTH_MILLI as int,
                                    WINDOW_HEIGHT_MILLI as int,
                                ),
                                ..sc.asteroids[i].asteroid
                            },
                            ..sc.asteroids[i]
                        })
                }))
            }))
        }),
{
    let ghost wstart = *w;
    let mut impulse: Option<Vec2i> = None;
    let popt: Option<Player> = w.player.take();
    match popt {
        Some(mut p) => {
        let ghost pstart = p;
        rotate_vessel(&mut p, input);
        impulse = move_vessel(&p, input);
        let ghost p1 = p;
        let fired: Option<(Laser, Laser)> = fire_lasers(&mut p, input, dt_ms, w.next_id);
        match fired {
            Some((l1, l2)) => {
                proof {
                    assert(-1000 <= crate::geom::sin_milli(p.heading as int) <= 1000);
                    assert(-1000 <= crate::geom::cos_milli(p.heading as int) <= 1000);
                    assert(in_bounds(l1.speed, 6000000));
                    assert(in_bounds(l2.speed, 6000000));
                    assert forall|k: int| 0 <= k < w.lasers@.len() implies (
                    #[trigger] w.lasers@[k]).id != l1.id && w.lasers@[k].id != l2.id by {}
                }
                w.lasers.push(l1);
                w.lasers.push(l2);
                w.next_id = w.next_id + 2;
            },
            None => {},
        }
        proof {
            assert(p == crate::vessel::fired_player(p1, *input, dt_ms as int));
            assert(w.lasers@ =~= wstart.lasers@ + crate::vessel::fired_lasers(
                p1,
                *input,
                dt_ms as int,
                wstart.next_id,
            ));
            assert(w.next_id == wstart.next_id + crate::vessel::fired_lasers(
                p1,
                *input,
                dt_ms as int,
                wstart.next_id,
            ).len());
            assert(rs_wf(
                state_of(
                    p,
                    w.lasers@,
                    w.asteroids@,
                    w.explosions@,
                    w.next_id as int,
                    Seq::empty(),
                ),
            ));
        }
        let ghost pre = *w;
        let ghost p_pre = p;
        vessel_collisions(
            &mut p,
            &mut w.lasers,
            &mut w.asteroids,
            &mut w.explosions,
            &mut w.next_id,
            events,
        );
        proof {
            assert forall|k: int| 0 <= k < w.lasers@.len() implies laser_ok(
                #[trigger] w.lasers@[k],
            ) && w.lasers@[k].id < w.next_id by {
                assert(pre.lasers@.contains(w.lasers@[k]));
                let j = choose|j: int|
                    0 <= j < pre.lasers@.len() && pre.lasers@[j] == w.lasers@[k];
                assert(laser_ok(pre.lasers@[j]));
            }
            assert forall|k: int| 0 <= k < w.asteroids@.len() implies asteroid_ent_ok(
                #[trigger] w.asteroids@[k],
            ) && w.asteroids@[k].id < w.next_id by {
                assert(pre.asteroids@.contains(w.asteroids@[k]));
                let j = choose|j: int|
                    0 <= j < pre.asteroids@.len() && pre.asteroids@[j] == w.asteroids@[k];
                assert(asteroid_ent_ok(pre.asteroids@[j]));
            }
            assert forall|k: int| 0 <= k < w.explosions@.len() implies explosion_ok(
                #[trigger] w.explosions@[k],
            ) by {
                if k < pre.explosions@.len() {
                    assert(explosion_ok(pre.explosions@[k]));
                } else {
                    assert(fresh_explosion_ok(
                        w.explosions@[k],
                        p_pre.pos,
                        pre.asteroids@,
                        pre.lasers@,
                        pre.next_id as int,
                        w.next_id as int,
                    ));
                    let e = w.explosions@[k];
                    if e.pos == p_pre.pos {
                    } else {
                        let j = choose|j: int|
                            0 <= j < pre.asteroids@.len() && e.pos == (
                            #[trigger] pre.asteroids@[j]).asteroid.pos;
                        assert(asteroid_ent_ok(pre.asteroids@[j]));
                    }
                    match e.kind {
                        ExplosionKind::Player => {},
                        ExplosionKind::AsteroidHit { asteroid, laser_velocity } => {
                            let j = choose|j: int|
                                0 <= j < pre.lasers@.len() && laser_velocity == (
                                #[trigger] pre.lasers@[j]).speed;
                            assert(laser_ok(pre.lasers@[j]));
                        },
                    }
                }
            }
        }
        let ghost sc = after_collisions(
            pstart,
            wstart.lasers@,
            wstart.asteroids@,
            wstart.explosions@,
            wstart.next_id,
            *input,
            dt_ms as int,
            events@,
        );
        proof {
            assert(p1 == crate::vessel::rotated_player(pstart, *input));
            assert(state_of(
                p_pre,
                pre.lasers@,
                pre.asteroids@,
                pre.explosions@,
                pre.next_id as int,
                Seq::empty(),
            ) == state_of(
                crate::vessel::fired_player(p1, *input, dt_ms as int),
                wstart.lasers@ + crate::vessel::fired_lasers(
                    p1,
                    *input,
                    dt_ms as int,
                    wstart.next_id,
                ),
                wstart.asteroids@,
                wstart.explosions@,
                wstart.next_id + crate::vessel::fired_lasers(
                    p1,
                    *input,
                    dt_ms as int,
                    wstart.next_id,
                ).len(),
                Seq::empty(),
            ));
            assert(p == sc.player);
            assert(w.lasers@ == sc.lasers);
            assert(w.asteroids@ == sc.asteroids);
            assert(w.explosions@ == sc.explosions);
            assert(w.next_id as int == sc.next_id);
            assert(p.pos == pstart.pos);
        }
        let ghost pre2 = *w;
        restrict_lasers_range(&mut w.lasers, dt_ms);
        proof {
            assert forall|k: int| 0 <= k < w.lasers@.len() implies laser_ok(
                #[trigger] w.lasers@[k],
            ) && w.lasers@[k].id < w.next_id by {
                let j = choose|j: int|
                    0 <= j < pre2.lasers@.len() && w.lasers@[k] == laser_after_tick(
                        pre2.lasers@[j],
                        dt_ms as int,
                    ) && pre2.lasers@[j].ttl_ms > dt_ms;
                assert(laser_ok(pre2.lasers@[j]));
            }
            assert(!has_laser(w.lasers@, p.id)) by {
                if has_laser(w.lasers@, p.id) {
                    let k = choose|k: int|
                        0 <= k < w.lasers@.len() && (#[trigger] w.lasers@[k]).id == p.id;
                    let j = choose|j: int|
                        0 <= j < pre2.lasers@.len() && w.lasers@[k] == laser_after_tick(
                            pre2.lasers@[j],
                            dt_ms as int,
                        ) && pre2.lasers@[j].ttl_ms > dt_ms;
                    assert(has_laser(pre2.lasers@, p.id));
                }
            }
            assert forall|a: int, b: int|
                0 <= a < w.lasers@.len() && 0 <= b < w.asteroids@.len() implies (
            #[trigger] w.lasers@[a]).id != (#[trigger] w.asteroids@[b]).id by {
                let j = choose|j: int|
                    0 <= j < pre2.lasers@.len() && w.lasers@[a] == laser_after_tick(
                        pre2.lasers@[j],
                        dt_ms as int,
                    ) && pre2.lasers@[j].ttl_ms > dt_ms;
            }
        }
        w.player = Some(p);
        let ghost pre3 = *w;
        proof {
            assert(track_of(pre3) == pstart.pos);
            assert(pre3.explosions@ == sc.explosions);
        }
        animate_explosions(w, dt_ms, rng);
        let ghost done2 = done_prefix(
            sc.explosions,
            dt_ms as int,
            pstart.pos,
            sc.explosions.len() as int,
        );
        let ghost c = count_player(done2, done2.len() as int);
        proof {
            assert(w.explosions@ == kept_prefix(
                sc.explosions,
                dt_ms as int,
                pstart.pos,
                sc.explosions.len() as int,
            ));
            assert(w.asteroids@.len() == sc.asteroids.len() + 2 * count_splitting(
                done2,
                done2.len() as int,
            ));
            if c == 0 {
                assert(w.player == pre3.player && w.flow == pre3.flow);
                assert(w.player == Some(sc.player));
            }
        }
        let ghost pre4 = *w;
        match w.policy {
            WrapPolicy::PerObject => {
                wrap_asteroids(
                    &mut w.asteroids,
                    4 * WINDOW_WIDTH_MILLI,
                    4 * WINDOW_HEIGHT_MILLI,
                );
                proof {
                    assert forall|k: int|
                        0 <= k < w.asteroids@.len() implies asteroid_ent_ok(
                        #[trigger] w.asteroids@[k],
                    ) && w.asteroids@[k].id < w.next_id by {}
                    if w.player is Some {
                        let q = w.player->Some_0;
                        assert(!has_asteroid(w.asteroids@, q.id)) by {
                            if has_asteroid(w.asteroids@, q.id) {
                                let j = choose|j: int|
                                    0 <= j < w.asteroids@.len() && (
                                    #[trigger] w.asteroids@[j]).id == q.id;
                            }
                        }
                    }
                    assert forall|a: int, b: int|
                        0 <= a < w.lasers@.len() && 0 <= b < w.asteroids@.len() implies (
                    #[trigger] w.lasers@[a]).id != (#[trigger] w.asteroids@[b]).id by {}
                }
                match &mut w.player {
                    Some(p2) => {
                        p2.pos = wrap_position(
                            p2.pos,
                            4 * WINDOW_WIDTH_MILLI,
                            4 * WINDOW_HEIGHT_MILLI,
                        );
                    },
                    None => {},
                }
            },
            WrapPolicy::VesselRelative => {
                let p2opt: Option<Player> = w.player.take();
                match p2opt {
                    Some(mut p2) => {
                        wrap_vessel(
                            &mut p2,
                            &mut w.asteroids,
                            &mut w.lasers,
                            WINDOW_WIDTH_MILLI,
                            WINDOW_HEIGHT_MILLI,
                        );
                        proof {
                            assert(in_bounds(p2.pos, 8000000));
                            assert(!has_asteroid(w.asteroids@, p2.id)) by {
                                if has_asteroid(w.asteroids@, p2.id) {
                                    let j = choose|j: int|
                                        0 <= j < w.asteroids@.len() && (
                                        #[trigger] w.asteroids@[j]).id == p2.id;
                                }
                            }
                            assert(!has_laser(w.lasers@, p2.id)) by {
                                if has_laser(w.lasers@, p2.id) {
                                    let j = choose|j: int|
                                        0 <= j < w.lasers@.len() && (
                                        #[trigger] w.lasers@[j]).id == p2.id;
                                }
                            }
                            assert forall|a: int, b: int|
                                0 <= a < w.lasers@.len() && 0 <= b
                                    < w.asteroids@.len() implies (
                            #[trigger] w.lasers@[a]).id != (
                            #[trigger] w.asteroids@[b]).id by {}
                        }
                        w.player = Some(p2);
                    },
                    None => {},
                }
            },
        }
        },
        None => {
            proof {
                assert(false);
            }
        },
    }
    impulse
}

#[verifier::rlimit(100)]
pub fn tick(
    w: &mut World,
    input: &InputState,
    dt_ms: u32,
    events: &Vec<CollisionEvent>,
    rng: &mut rand::rngs::ThreadRng,
) -> (r: TickOutput)
    requires
        world_wf(*old(w)),
        1 <= dt_ms <= 100000,
        old(w).next_id < 0x4000_0000_0000_0000,
        events@.len() < 0x1000_0000,
        old(w).explosions@.len() < 0x1000_0000,
    ensures
        world_wf(*final(w)),
        final(w).policy == old(w).policy,
        final(w).flow.state == boundary_state(old(w).flow),
        r.exit_app == (boundary_state(old(w).flow) == GameState::Menu && input.exit),
        (boundary_state(old(w).flow) != GameState::InGame && old(w).flow.state
            != GameState::InGame) ==> (final(w).player == old(w).player && final(w).asteroids
            == old(w).asteroids && final(w).lasers == old(w).lasers && final(w).explosions == old(
            w,
        ).explosions),
        (boundary_state(old(w).flow) == GameState::Paused && old(w).flow.state
            != GameState::InGame) ==> final(w).flow.next is None,
        ((boundary_state(old(w).flow) == GameState::Menu || boundary_state(old(w).flow)
            == GameState::GameOver) && old(w).flow.state == GameState::InGame)
            ==> (final(w).player is None && final(w).asteroids@.len() == 0
            && final(w).lasers@.len() == 0 && final(w).explosions@.len() == 0),
        r.impulse is Some ==> boundary_state(old(w).flow) == GameState::InGame && input.thrust,
        boundary_state(old(w).flow) != GameState::InGame ==> r.impulse is None,
        (boundary_state(old(w).flow) == GameState::Menu || boundary_state(old(w).flow)
            == GameState::GameOver) ==> final(w).flow.next == crate::flow::menu_transition(
            boundary_state(old(w).flow),
            *input,
            None,
        ),
        boundary_state(old(w).flow) != GameState::InGame ==> final(w).play_time_ms == old(
            w,
        ).play_time_ms,
        (boundary_state(old(w).flow) == GameState::InGame && old(w).flow.state
            != GameState::InGame) ==> final(w).play_time_ms == dt_ms,
        (boundary_state(old(w).flow) == GameState::InGame && old(w).flow.state
            == GameState::InGame) ==> final(w).play_time_ms == (if old(w).play_time_ms + dt_ms
            <= u64::MAX {
            (old(w).play_time_ms + dt_ms) as u64
        } else {
            old(w).play_time_ms
        }),
        (boundary_state(old(w).flow) == GameState::InGame && old(w).flow.state
            != GameState::InGame) ==> ({
            &&& (final(w).player matches Some(p) && p.lifes == 3 && p.pos == (Vec2i { x: 0, y: 0 })
                && p.speed == (Vec2i { x: 0, y: 0 }) && p.heading == (48 + rot_delta(*input)) % 48
                && p.name@ == "Anakin"@)
            &&& final(w).asteroids@.len() <= ASTEROIDS_COUNT
            &&& forall|i: int|
                0 <= i < final(w).asteroids@.len() ==> asteroid_ok(
                    (#[trigger] final(w).asteroids@[i]).asteroid,
                    3 * WINDOW_WIDTH_MILLI as int,
                    3 * WINDOW_HEIGHT_MILLI as int,
                )
            &&& forall|i: int, j: int|
                0 <= i < j < final(w).asteroids@.len() ==> separated(
                    (#[trigger] final(w).asteroids@[i]).asteroid,
                    (#[trigger] final(w).asteroids@[j]).asteroid,
                )
            &&& final(w).lasers@.len() <= 2
            &&& r.impulse == (if input.thrust {
                Some(thrust_vec(((48 + rot_delta(*input)) % 48) as int))
            } else {
                None::<Vec2i>
            })
        }),
        (boundary_state(old(w).flow) == GameState::InGame && old(w).flow.state
            == GameState::InGame && old(w).player is None) ==> r.impulse is None,
        (boundary_state(old(w).flow) == GameState::InGame && old(w).flow.state
            == GameState::InGame && old(w).player is Some) ==> ({
            let p0 = old(w).player->Some_0;
            let sc = after_collisions(
                p0,
                old(w).lasers@,
                old(w).asteroids@,
                old(w).explosions@,
                old(w).next_id,
                *input,
                dt_ms as int,
                events@,
            );
            let lasers2 = crate::laser::expire_lasers(sc.lasers, dt_ms as int);
            let done2 = done_prefix(sc.explosions, dt_ms as int, p0.pos, sc.explosions.len() as int);
            let c = count_player(done2, done2.len() as int);
            &&& final(w).explosions@ == kept_prefix(
                sc.explosions,
                dt_ms as int,
                p0.pos,
                sc.explosions.len() as int,
            )
            &&& final(w).asteroids@.len() == sc.asteroids.len() + 2 * count_splitting(
                done2,
                done2.len() as int,
            )
            &&& r.impulse == (if input.thrust {
                Some(thrust_vec(crate::vessel::rotated_player(p0, *input).heading as int))
            } else {
                None::<Vec2i>
            })
            &&& (c == 0 ==> ({
                &&& final(w).flow.next == (if input.exit {
                    Some(GameState::Menu)
                } else {
                    None::<GameState>
                })
                &&& (old(w).policy == WrapPolicy::PerObject ==> ({
                    &&& final(w).lasers@ == lasers2
                    &&& final(w).player == Some(
                        Player {
                            pos: crate::wrap::wrap_pos(
                                sc.player.pos,
                                4 * WINDOW_WIDTH_MILLI as int,
                                4 * WINDOW_HEIGHT_MILLI as int,
                            ),
                            ..sc.player
                        },
                    )
                    &&& forall|i: int|
                        0 <= i < sc.asteroids.len() ==> #[trigger] final(w).asteroids@[i]
                            == (AsteroidEntity {
                            asteroid: Asteroid {
                                pos: crate::wrap::wrap_pos(
                                    sc.asteroids[i].asteroid.pos,
                                    4 * WINDOW_WIDTH_MILLI as int,
                                    4 * WINDOW_HEIGHT_MILLI as int,
                                ),
                                ..sc.asteroids[i].asteroid
                            },
                            ..sc.asteroids[i]
                        })
                }))
                &&& (old(w).policy == WrapPolicy::VesselRelative ==> ({
                    &&& final(w).player == Some(
                        Player {
                            pos: Vec2i {
                                x: crate::wrap::wrap_coord(
                                    sc.player.pos.x as int,
                                    3 * WINDOW_WIDTH_MILLI as int,
                                ) as i64,
                                y: crate::wrap::wrap_coord(
                                    sc.player.pos.y as int,
                                    3 * WINDOW_HEIGHT_MILLI as int,
                                ) as i64,
                            },
                            ..sc.player
                        },
                    )
                    &&& final(w).lasers@.len() == lasers2.len()
                    &&& forall|i: int|
                        0 <= i < lasers2.len() ==> #[trigger] final(w).lasers@[i] == (Laser {
                            pos: crate::wrap::shifted_pos(
                                lasers2[i].pos,
                                sc.player.pos,
                                WINDOW_WIDTH_MILLI as int,
                                WINDOW_HEIGHT_MILLI as int,
                            ),
                            ..lasers2[i]
                        })
                    &&& forall|i: int|
                        0 <= i < sc.asteroids.len() ==> #[trigger] final(w).asteroids@[i]
                            == (AsteroidEntity {
                            asteroid: Asteroid {
                                pos: crate::wrap::shifted_pos(
                                    sc.asteroids[i].asteroid.pos,
                                    sc.player.pos,
                                    WINDOW_WIDTH_MILLI as int,
                                    WINDOW_HEIGHT_MILLI as int,
                                ),
                                ..sc.asteroids[i].asteroid
                            },
                            ..sc.asteroids[i]
                        })
                }))
            }))
        }),
{
    let transition: Option<(GameState, GameState)> = w.flow.apply_pending();
    match transition {
        Some((from, to)) => {
            if crate::flow::states_equal(to, GameState::InGame) {
                enter_game(w, ASTEROIDS_COUNT, rng);
            } else if crate::flow::states_equal(from, GameState::InGame) {
                exit_game(w);
            }
        },
        None => {},
    }
    let mut exit_app: bool = false;
    let mut impulse: Option<Vec2i> = None;
    let at_menu: bool = crate::flow::states_equal(w.flow.state, GameState::Menu);
    let at_gameover: bool = crate::flow::states_equal(w.flow.state, GameState::GameOver);
    let in_game: bool = crate::flow::states_equal(w.flow.state, GameState::InGame);
    if at_menu || at_gameover {
        exit_app = manage_inputs(&mut w.flow, input);
    } else if in_game {
        if w.play_time_ms <= u64::MAX - (dt_ms as u64) {
            w.play_time_ms = w.play_time_ms + (dt_ms as u64);
        }
        if input.exit {
            exit_to_menu(&mut w.flow);
        }
        let has_vessel: bool = match &w.player {
            Some(_) => true,
            None => false,
        };
        let ghost wcall = *w;
        if has_vessel {
            impulse = ingame_stage(w, input, dt_ms, events, rng);
            proof {
                if boundary_state(old(w).flow) == GameState::InGame && old(w).flow.state
                    != GameState::InGame {
                    let p0 = wcall.player->Some_0;
                    let sc = after_collisions(
                        p0,
                        wcall.lasers@,
                        wcall.asteroids@,
                        wcall.explosions@,
                        wcall.next_id,
                        *input,
                        dt_ms as int,
                        events@,
                    );
                    let done2 = done_prefix(
                        sc.explosions,
                        dt_ms as int,
                        p0.pos,
                        sc.explosions.len() as int,
                    );
                    assert(wcall.explosions@.len() == 0);
                    assert forall|k: int|
                        0 <= k < sc.explosions.len() implies (#[trigger] sc.explosions[k]).frame
                        < EXPLOSION_LAST_FRAME by {
                        assert(sc.explosions[k].frame == 0);
                    }
                    lemma_done_empty(
                        sc.explosions,
                        dt_ms as int,
                        p0.pos,
                        sc.explosions.len() as int,
                    );
                    assert(done2.len() == 0);
                    let c = count_player(done2, done2.len() as int);
                    assert(c == 0);
                    assert(count_splitting(done2, done2.len() as int) == 0);
                    // The vessel: fresh from game entry, so at the origin with
                    // three lives; only rotation, the cooldown and visibility
                    // can have moved, and the wrap of the origin is the origin.
                    assert(p0.lifes == 3 && p0.pos == (Vec2i { x: 0, y: 0 }) && p0.speed
                        == (Vec2i { x: 0, y: 0 }) && p0.heading == 0 && p0.name@ == "Anakin"@);
                    let p1s = crate::vessel::rotated_player(p0, *input);
                    let p2s = crate::vessel::fired_player(p1s, *input, dt_ms as int);
                    assert(p1s.heading == (48 + rot_delta(*input)) % 48);
                    assert(sc.player == (Player { visible: sc.player.visible, ..p2s }));
                    assert(sc.player.pos == (Vec2i { x: 0, y: 0 }) && sc.player.lifes == 3
                        && sc.player.heading == (48 + rot_delta(*input)) % 48 && sc.player.speed
                        == (Vec2i { x: 0, y: 0 }) && sc.player.name@ == "Anakin"@);
                    assert(crate::wrap::wrap_pos(
                        sc.player.pos,
                        4 * WINDOW_WIDTH_MILLI as int,
                        4 * WINDOW_HEIGHT_MILLI as int,
                    ) == sc.player.pos);
                    assert(crate::wrap::wrap_coord(sc.player.pos.x as int, 3 * WINDOW_WIDTH_MILLI as int)
                        == sc.player.pos.x);
                    assert(crate::wrap::wrap_coord(
                        sc.player.pos.y as int,
                        3 * WINDOW_HEIGHT_MILLI as int,
                    ) == sc.player.pos.y);
                    // Each surviving asteroid was spawned by the field setup,
                    // sits within three window extents, and is untouched by
                    // either wrap policy there.
                    assert forall|i: int| 0 <= i < sc.asteroids.len() implies asteroid_ok(
                        (#[trigger] sc.asteroids[i]).asteroid,
                        3 * WINDOW_WIDTH_MILLI as int,
                        3 * WINDOW_HEIGHT_MILLI as int,
                    ) by {
                        assert(wcall.asteroids@.contains(sc.asteroids[i]));
                        let j = choose|j: int|
                            0 <= j < wcall.asteroids@.len() && wcall.asteroids@[j]
                                == sc.asteroids[i];
                        assert(asteroid_ok(
                            wcall.asteroids@[j].asteroid,
                            3 * WINDOW_WIDTH_MILLI as int,
                            3 * WINDOW_HEIGHT_MILLI as int,
                        ));
                    }
                    assert forall|i: int| 0 <= i < sc.asteroids.len() implies #[trigger] w.asteroids@[i]
                        == sc.asteroids[i] by {
                        if wcall.policy == WrapPolicy::PerObject {
                            assert(crate::wrap::wrap_pos(
                                sc.asteroids[i].asteroid.pos,
                                4 * WINDOW_WIDTH_MILLI as int,
                                4 * WINDOW_HEIGHT_MILLI as int,
                            ) == sc.asteroids[i].asteroid.pos);
                        } else {
                            assert(crate::wrap::shifted_pos(
                                sc.asteroids[i].asteroid.pos,
                                sc.player.pos,
                                WINDOW_WIDTH_MILLI as int,
                                WINDOW_HEIGHT_MILLI as int,
                            ) == sc.asteroids[i].asteroid.pos);
                        }
                    }
                    assert(w.asteroids@.len() == sc.asteroids.len());
                    // Pairwise separation survives the pass: survivors carry
                    // distinct ids and all stem from the separated fresh field.
                    assert(distinct_asteroids(sc.asteroids)) by {
                        assert forall|a: int, b: int| 0 <= a < b < sc.asteroids.len() implies (
                        #[trigger] sc.asteroids[a]).id != (#[trigger] sc.asteroids[b]).id by {
                            assert(w.asteroids@[a] == sc.asteroids[a]);
                            assert(w.asteroids@[b] == sc.asteroids[b]);
                        }
                    }
                    lemma_separated_subset(wcall.asteroids@, sc.asteroids);
                    assert forall|a: int, b: int| 0 <= a < b < w.asteroids@.len() implies separated(
                        (#[trigger] w.asteroids@[a]).asteroid,
                        (#[trigger] w.asteroids@[b]).asteroid,
                    ) by {
                        assert(separated(sc.asteroids[a].asteroid, sc.asteroids[b].asteroid));
                    }
                    assert(w.lasers@.len() <= 2) by {
                        assert(crate::laser::expire_lasers(sc.lasers, dt_ms as int).len()
                            <= sc.lasers.len());
                    }
                    if wcall.policy == WrapPolicy::PerObject {
                        assert(w.player == Some(
                            Player {
                                pos: crate::wrap::wrap_pos(
                                    sc.player.pos,
                                    4 * WINDOW_WIDTH_MILLI as int,
                                    4 * WINDOW_HEIGHT_MILLI as int,
                                ),
                                ..sc.player
                            },
                        ));
                        assert(w.player == Some(sc.player));
                    } else {
                        assert(w.player == Some(
                            Player {
                                pos: Vec2i {
                                    x: crate::wrap::wrap_coord(
                                        sc.player.pos.x as int,
                                        3 * WINDOW_WIDTH_MILLI as int,
                                    ) as i64,
                                    y: crate::wrap::wrap_coord(
                                        sc.player.pos.y as int,
                                        3 * WINDOW_HEIGHT_MILLI as int,
                                    ) as i64,
                                },
                                ..sc.player
                            },
                        ));
                        assert(w.player == Some(sc.player));
                    }
                }
            }
        } else {
            match w.policy {
                WrapPolicy::PerObject => {
                    wrap_asteroids(
                        &mut w.asteroids,
                        4 * WINDOW_WIDTH_MILLI,
                        4 * WINDOW_HEIGHT_MILLI,
                    );
                    proof {
                        assert forall|k: int| 0 <= k < w.asteroids@.len() implies asteroid_ent_ok(
                            #[trigger] w.asteroids@[k],
                        ) && w.asteroids@[k].id < w.next_id by {}
                        assert forall|a: int, b: int|
                            0 <= a < w.lasers@.len() && 0 <= b < w.asteroids@.len() implies (
                        #[trigger] w.lasers@[a]).id != (#[trigger] w.asteroids@[b]).id by {}
                    }
                },
                WrapPolicy::VesselRelative => {},
            }
        }
    }
    TickOutput { exit_app, impulse }
}

} // verus!
