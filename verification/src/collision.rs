//! Collision resolution: classifies the physics collaborator's
//! collision-start events (vessel hit, or laser against asteroid), spawns
//! the explosions and despawns the consumed entities, exactly once per
//! entity per tick however often and in whatever order the events name
//! it.  The whole pass is specified as a fold of a step function over the
//! event stream, and the executable engine is proved equal to that fold.

use vstd::prelude::*;
use crate::geom::Vec2i;
use crate::asteroid::{AsteroidEntity, explosion_scale_milli};
use crate::explosion::{Explosion, ExplosionKind};
use crate::laser::Laser;
use crate::vessel::Player;

verus! {

/// A collision event from the physics collaborator, naming an unordered
/// pair of entity ids; the two sides may arrive swapped.
#[derive(Clone, Copy, Debug, PartialEq, Eq, Structural)]
pub enum CollisionEvent {
    Started(u64, u64),
    Stopped(u64, u64),
}

/// No two lasers share an id.
pub open spec fn distinct_lasers(s: Seq<Laser>) -> bool {
    forall|i: int, j: int| 0 <= i < j < s.len() ==> (#[trigger] s[i]).id != (#[trigger] s[j]).id
}

/// Some laser carries this id.
pub open spec fn has_laser(s: Seq<Laser>, id: u64) -> bool {
    exists|i: int| 0 <= i < s.len() && (#[trigger] s[i]).id == id
}

/// The index of the laser carrying this id.
pub open spec fn laser_index(s: Seq<Laser>, id: u64) -> int {
    choose|i: int| 0 <= i < s.len() && (#[trigger] s[i]).id == id
}

/// No two asteroids share an id.
pub open spec fn distinct_asteroids(s: Seq<AsteroidEntity>) -> bool {
    forall|i: int, j: int| 0 <= i < j < s.len() ==> (#[trigger] s[i]).id != (#[trigger] s[j]).id
}

/// Some asteroid carries this id.
pub open spec fn has_asteroid(s: Seq<AsteroidEntity>, id: u64) -> bool {
    exists|i: int| 0 <= i < s.len() && (#[trigger] s[i]).id == id
}

/// The index of the asteroid carrying this id.
pub open spec fn asteroid_index(s: Seq<AsteroidEntity>, id: u64) -> int {
    choose|i: int| 0 <= i < s.len() && (#[trigger] s[i]).id == id
}

/// The state the resolution pass folds over: the vessel, the three
/// entity collections, the id counter for fresh explosions, and the ids
/// already consumed this tick.
pub struct ResolveState {
    pub player: Player,
    pub lasers: Seq<Laser>,
    pub asteroids: Seq<AsteroidEntity>,
    pub explosions: Seq<Explosion>,
    pub next_id: int,
    pub consumed: Seq<u64>,
}

/// Entity ids are distinct across the vessel, the lasers and the
/// asteroids.
pub open spec fn rs_wf(s: ResolveState) -> bool {
    &&& distinct_lasers(s.lasers)
    &&& distinct_asteroids(s.asteroids)
    &&& !has_laser(s.lasers, s.player.id)
    &&& !has_asteroid(s.asteroids, s.player.id)
    &&& forall|i: int, j: int|
        0 <= i < s.lasers.len() && 0 <= j < s.asteroids.len() ==> (#[trigger] s.lasers[i]).id != (
        #[trigger] s.asteroids[j]).id
}

/// The explosion a vessel hit spawns: at the vessel's position, at half
/// visual scale.
pub open spec fn player_explosion(id: int, pos: Vec2i) -> Explosion {
    Explosion {
        id: id as u64,
        pos,
        scale_milli: 500,
        frame: 0,
        timer_ms: 0,
        kind: ExplosionKind::Player,
    }
}

/// The explosion a destroyed asteroid spawns: at the asteroid's position,
/// at the size-dependent scale, remembering the asteroid and the laser
/// velocity for the split that may follow.
pub open spec fn asteroid_explosion(id: int, a: AsteroidEntity, laser_vel: Vec2i) -> Explosion {
    Explosion {
        id: id as u64,
        pos: a.asteroid.pos,
        scale_milli: explosion_scale_milli(a.asteroid.size) as u32,
        frame: 0,
        timer_ms: 0,
        kind: ExplosionKind::AsteroidHit { asteroid: a.asteroid, laser_velocity: laser_vel },
    }
}

/// One event resolved against the state.  A stop event changes nothing.
/// A start event naming the vessel damages the vessel, unless the vessel
/// was already consumed this tick: the vessel turns invisible (never
/// despawns), a player explosion spawns, and a laser on the other side
/// is despawned with it.  Otherwise a start event naming one live laser
/// and one live asteroid, neither consumed yet, despawns both and spawns
/// an asteroid explosion.  Anything else — stale ids, pairs of asteroids,
/// pairs of lasers, entities already consumed — changes nothing.
pub open spec fn resolve_step(s: ResolveState, e: CollisionEvent) -> ResolveState {
    match e {
        CollisionEvent::Stopped(_, _) => s,
        CollisionEvent::Started(a, b) => {
            if a == s.player.id || b == s.player.id {
                if s.consumed.contains(s.player.id) {
                    s
                } else {
                    let other = if a == s.player.id {
                        b
                    } else {
                        a
                    };
                    let s1 = ResolveState {
                        player: Player { visible: false, ..s.player },
                        explosions: s.explosions.push(
                            player_explosion(s.next_id, s.player.pos),
                        ),
                        next_id: s.next_id + 1,
                        consumed: s.consumed.push(s.player.id),
                        ..s
                    };
                    if has_laser(s1.lasers, other) && !s1.consumed.contains(other) {
                        ResolveState {
                            lasers: s1.lasers.remove(laser_index(s1.lasers, other)),
                            consumed: s1.consumed.push(other),
                            ..s1
                        }
                    } else {
                        s1
                    }
                }
            } else if has_laser(s.lasers, a) || has_laser(s.lasers, b) {
                let lid = if has_laser(s.lasers, a) {
                    a
                } else {
                    b
                };
                let oid = if has_laser(s.lasers, a) {
                    b
                } else {
                    a
                };
                if !s.consumed.contains(lid) && !s.consumed.contains(oid) && has_asteroid(
                    s.asteroids,
                    oid,
                ) {
                    let ast = s.asteroids[asteroid_index(s.asteroids, oid)];
                    let lsr = s.lasers[laser_index(s.lasers, lid)];
                    ResolveState {
                        lasers: s.lasers.remove(laser_index(s.lasers, lid)),
                        asteroids: s.asteroids.remove(asteroid_index(s.asteroids, oid)),
                        explosions: s.explosions.push(
                            asteroid_explosion(s.next_id, ast, lsr.speed),
                        ),
                        next_id: s.next_id + 1,
                        consumed: s.consumed.push(lid).push(oid),
                        ..s
                    }
                } else {
                    s
                }
            } else {
                s
            }
        },
    }
}

/// The first `n` events folded over the state, oldest first.
pub open spec fn resolve_upto(s: ResolveState, events: Seq<CollisionEvent>, n: int) -> ResolveState
    decreases n,
{
    if n <= 0 {
        s
    } else {
        resolve_step(resolve_upto(s, events, n - 1), events[n - 1])
    }
}

/// Removing one laser keeps the rest in order, keeps ids distinct, and
/// drops exactly the removed id.
pub proof fn lemma_remove_laser(s: Seq<Laser>, i: int)
    requires
        0 <= i < s.len(),
        distinct_lasers(s),
    ensures
        s.remove(i).len() == s.len() - 1,
        forall|k: int| 0 <= k < i ==> s.remove(i)[k] == s[k],
        forall|k: int| i <= k < s.len() - 1 ==> s.remove(i)[k] == s[k + 1],
        distinct_lasers(s.remove(i)),
        !has_laser(s.remove(i), s[i].id),
        forall|x: u64| has_laser(s.remove(i), x) ==> has_laser(s, x),
        forall|x: u64| x != s[i].id && has_laser(s, x) ==> #[trigger] has_laser(s.remove(i), x),
{
    let r = s.remove(i);
    assert forall|k: int| 0 <= k < i implies r[k] == s[k] by {
        assert(r[k] == s.subrange(0, i)[k]);
    }
    assert forall|k: int| i <= k < s.len() - 1 implies r[k] == s[k + 1] by {
        assert(r[k] == s.subrange(i + 1, s.len() as int)[k - i]);
    }
    assert forall|x: u64| !(x != s[i].id && has_laser(s, x)) || #[trigger] has_laser(r, x) by {
        if x != s[i].id && has_laser(s, x) {
            let j = choose|j: int| 0 <= j < s.len() && (#[trigger] s[j]).id == x;
            if j < i {
                assert(r[j].id == x);
            } else {
                assert(r[j - 1].id == x);
            }
        }
    }
    assert forall|x: u64| has_laser(r, x) implies has_laser(s, x) by {
        let j = choose|j: int| 0 <= j < r.len() && (#[trigger] r[j]).id == x;
        if j < i {
            assert(s[j].id == x);
        } else {
            assert(s[j + 1].id == x);
        }
    }
    assert(!has_laser(r, s[i].id)) by {
        if has_laser(r, s[i].id) {
            let j = choose|j: int| 0 <= j < r.len() && (#[trigger] r[j]).id == s[i].id;
            if j < i {
                assert(s[j].id == s[i].id);
            } else {
                assert(s[j + 1].id == s[i].id);
            }
        }
    }
}

/// Removing one asteroid keeps the rest in order, keeps ids distinct,
/// and drops exactly the removed id.
pub proof fn lemma_remove_asteroid(s: Seq<AsteroidEntity>, i: int)
    requires
        0 <= i < s.len(),
        distinct_asteroids(s),
    ensures
        s.remove(i).len() == s.len() - 1,
        forall|k: int| 0 <= k < i ==> s.remove(i)[k] == s[k],
        forall|k: int| i <= k < s.len() - 1 ==> s.remove(i)[k] == s[k + 1],
        distinct_asteroids(s.remove(i)),
        !has_asteroid(s.remove(i), s[i].id),
        forall|x: u64| has_asteroid(s.remove(i), x) ==> has_asteroid(s, x),
        forall|x: u64|
            x != s[i].id && has_asteroid(s, x) ==> #[trigger] has_asteroid(s.remove(i), x),
{
    let r = s.remove(i);
    assert forall|k: int| 0 <= k < i implies r[k] == s[k] by {
        assert(r[k] == s.subrange(0, i)[k]);
    }
    assert forall|k: int| i <= k < s.len() - 1 implies r[k] == s[k + 1] by {
        assert(r[k] == s.subrange(i + 1, s.len() as int)[k - i]);
    }
    assert forall|x: u64| !(x != s[i].id && has_asteroid(s, x)) || #[trigger] has_asteroid(r, x)
        by {
        if x != s[i].id && has_asteroid(s, x) {
            let j = choose|j: int| 0 <= j < s.len() && (#[trigger] s[j]).id == x;
            if j < i {
                assert(r[j].id == x);
            } else {
                assert(r[j - 1].id == x);
            }
        }
    }
    assert forall|x: u64| has_asteroid(r, x) implies has_asteroid(s, x) by {
        let j = choose|j: int| 0 <= j < r.len() && (#[trigger] r[j]).id == x;
        if j < i {
            assert(s[j].id == x);
        } else {
            assert(s[j + 1].id == x);
        }
    }
    assert(!has_asteroid(r, s[i].id)) by {
        if has_asteroid(r, s[i].id) {
            let j = choose|j: int| 0 <= j < r.len() && (#[trigger] r[j]).id == s[i].id;
            if j < i {
                assert(s[j].id == s[i].id);
            } else {
                assert(s[j + 1].id == s[i].id);
            }
        }
    }
}

/// One resolution step keeps the state well formed, never touches the
/// vessel's identity, and spawns at most one explosion.
pub proof fn lemma_step_wf(s: ResolveState, e: CollisionEvent)
    requires
        rs_wf(s),
    ensures
        rs_wf(resolve_step(s, e)),
        resolve_step(s, e).player.id == s.player.id,
        s.next_id <= resolve_step(s, e).next_id <= s.next_id + 1,
{
    let s2 = resolve_step(s, e);
    match e {
        CollisionEvent::Stopped(_, _) => {},
        CollisionEvent::Started(a, b) => {
            if a == s.player.id || b == s.player.id {
                if !s.consumed.contains(s.player.id) {
                    let other = if a == s.player.id {
                        b
                    } else {
                        a
                    };
                    if has_laser(s.lasers, other) && !s.consumed.push(s.player.id).contains(
                        other,
                    ) {
                        let li = laser_index(s.lasers, other);
                        assert(0 <= li < s.lasers.len() && s.lasers[li].id == other);
                        lemma_remove_laser(s.lasers, li);
                    }
                }
            } else if has_laser(s.lasers, a) || has_laser(s.lasers, b) {
                let lid = if has_laser(s.lasers, a) {
                    a
                } else {
                    b
                };
                let oid = if has_laser(s.lasers, a) {
                    b
                } else {
                    a
                };
                if !s.consumed.contains(lid) && !s.consumed.contains(oid) && has_asteroid(
                    s.asteroids,
                    oid,
                ) {
                    let li = laser_index(s.lasers, lid);
                    let ai = asteroid_index(s.asteroids, oid);
                    assert(0 <= li < s.lasers.len() && s.lasers[li].id == lid);
                    assert(0 <= ai < s.asteroids.len() && s.asteroids[ai].id == oid);
                    lemma_remove_laser(s.lasers, li);
                    lemma_remove_asteroid(s.asteroids, ai);
                    assert forall|i: int, j: int|
                        0 <= i < s2.lasers.len() && 0 <= j < s2.asteroids.len() implies (
                    #[trigger] s2.lasers[i]).id != (#[trigger] s2.asteroids[j]).id by {
                        let i0: int = if i < li {
                            i
                        } else {
                            i + 1
                        };
                        let j0: int = if j < ai {
                            j
                        } else {
                            j + 1
                        };
                        assert(s2.lasers[i] == s.lasers[i0]);
                        assert(s2.asteroids[j] == s.asteroids[j0]);
                    }
                }
            }
        },
    }
}

/// Scans the consumed-id set.
fn id_in(v: &Vec<u64>, x: u64) -> (r: bool)
    ensures
        r == v@.contains(x),
{
    let n: usize = v.len();
    let mut i: usize = 0;
    while i < n
        invariant
            n == v@.len(),
            i <= n,
            forall|k: int| 0 <= k < i ==> v@[k] != x,
        decreases n - i,
    {
        if v[i] == x {
            assert(v@.contains(x));
            return true;
        }
        i += 1;
    }
    assert(!v@.contains(x));
    false
}

/// Finds the laser carrying an id, if one does.
fn find_laser(lasers: &Vec<Laser>, id: u64) -> (r: Option<usize>)
    requires
        distinct_lasers(lasers@),
    ensures
        r is Some <==> has_laser(lasers@, id),
        r matches Some(i) ==> 0 <= i < lasers@.len() && lasers@[i as int].id == id && i as int
            == laser_index(lasers@, id),
{
    let n: usize = lasers.len();
    let mut i: usize = 0;
    while i < n
        invariant
            n == lasers@.len(),
            i <= n,
            distinct_lasers(lasers@),
            forall|k: int| 0 <= k < i ==> (#[trigger] lasers@[k]).id != id,
        decreases n - i,
    {
        if lasers[i].id == id {
            proof {
                assert(has_laser(lasers@, id));
                let j = laser_index(lasers@, id);
                assert(0 <= j < lasers@.len() && lasers@[j].id == id);
                if j < i as int {
                    assert(false);
                }
                if (i as int) < j {
                    assert(false);
                }
            }
            return Some(i);
        }
        i += 1;
    }
    proof {
        if has_laser(lasers@, id) {
            let j = choose|j: int| 0 <= j < lasers@.len() && (#[trigger] lasers@[j]).id == id;
            assert(false);
        }
    }
    None
}

/// Finds the asteroid carrying an id, if one does.
fn find_asteroid(asteroids: &Vec<AsteroidEntity>, id: u64) -> (r: Option<usize>)
    requires
        distinct_asteroids(asteroids@),
    ensures
        r is Some <==> has_asteroid(asteroids@, id),
        r matches Some(i) ==> 0 <= i < asteroids@.len() && asteroids@[i as int].id == id && i
            as int == asteroid_index(asteroids@, id),
{
    let n: usize = asteroids.len();
    let mut i: usize = 0;
    while i < n
        invariant
            n == asteroids@.len(),
            i <= n,
            distinct_asteroids(asteroids@),
            forall|k: int| 0 <= k < i ==> (#[trigger] asteroids@[k]).id != id,
        decreases n - i,
    {
        if asteroids[i].id == id {
            proof {
                assert(has_asteroid(asteroids@, id));
                let j = asteroid_index(asteroids@, id);
                assert(0 <= j < asteroids@.len() && asteroids@[j].id == id);
                if j < i as int {
                    assert(false);
                }
                if (i as int) < j {
                    assert(false);
                }
            }
            return Some(i);
        }
        i += 1;
    }
    proof {
        if has_asteroid(asteroids@, id) {
            let j = choose|j: int| 0 <= j < asteroids@.len() && (#[trigger] asteroids@[j]).id
                == id;
            assert(false);
        }
    }
    None
}

/// The shape every explosion freshly spawned by the resolution pass has:
/// at its first frame, with an id drawn from the tick's fresh range, at
/// the vessel's position or at the position of an asteroid that was live
/// when the tick began.
pub open spec fn fresh_explosion_ok(
    e: Explosion,
    ppos: Vec2i,
    asts: Seq<AsteroidEntity>,
    lsrs: Seq<Laser>,
    lo: int,
    hi: int,
) -> bool {
    &&& e.frame == 0
    &&& e.timer_ms == 0
    &&& lo <= e.id < hi
    &&& (e.pos == ppos || exists|j: int|
        0 <= j < asts.len() && e.pos == (#[trigger] asts[j]).asteroid.pos)
    &&& kind_vel_ok(e.kind, lsrs)
}

/// An asteroid-hit payload remembers the velocity of a laser that was
/// live when the tick began.
pub open spec fn kind_vel_ok(k: ExplosionKind, lsrs: Seq<Laser>) -> bool {
    match k {
        ExplosionKind::Player => true,
        ExplosionKind::AsteroidHit { asteroid, laser_velocity } => exists|j: int|
            0 <= j < lsrs.len() && laser_velocity == (#[trigger] lsrs[j]).speed,
    }
}

/// The state the entity collections stand in, as the fold sees it.
pub open spec fn state_of(
    player: Player,
    lasers: Seq<Laser>,
    asteroids: Seq<AsteroidEntity>,
    explosions: Seq<Explosion>,
    next_id: int,
    consumed: Seq<u64>,
) -> ResolveState {
    ResolveState { player, lasers, asteroids, explosions, next_id, consumed }
}

/// Resolves one tick's collision events against the world: exactly the
/// fold of `resolve_step` over the events, oldest first, starting with
/// nothing consumed.
#[verifier::rlimit(100)]
pub fn vessel_collisions(
    player: &mut Player,
    lasers: &mut Vec<Laser>,
    asteroids: &mut Vec<AsteroidEntity>,
    explosions: &mut Vec<Explosion>,
    next_id: &mut u64,
    events: &Vec<CollisionEvent>,
)
    requires
        rs_wf(
            state_of(
                *old(player),
                old(lasers)@,
                old(asteroids)@,
                old(explosions)@,
                *old(next_id) as int,
                Seq::empty(),
            ),
        ),
        *old(next_id) + events@.len() < 0xffff_ffff_ffff_ffff,
    ensures
        ({
            let f = resolve_upto(
                state_of(
                    *old(player),
                    old(lasers)@,
                    old(asteroids)@,
                    old(explosions)@,
                    *old(next_id) as int,
                    Seq::empty(),
                ),
                events@,
                events@.len() as int,
            );
            &&& *final(player) == f.player
            &&& final(lasers)@ == f.lasers
            &&& final(asteroids)@ == f.asteroids
            &&& final(explosions)@ == f.explosions
            &&& *final(next_id) == f.next_id
        }),
        rs_wf(
            state_of(
                *final(player),
                final(lasers)@,
                final(asteroids)@,
                final(explosions)@,
                *final(next_id) as int,
                Seq::empty(),
            ),
        ),
        *final(player) == (Player { visible: final(player).visible, ..*old(player) }),
        *old(next_id) <= *final(next_id) <= *old(next_id) + events@.len(),
        final(lasers)@.len() <= old(lasers)@.len(),
        final(asteroids)@.len() <= old(asteroids)@.len(),
        forall|k: int|
            0 <= k < final(lasers)@.len() ==> old(lasers)@.contains(#[trigger] final(lasers)@[k]),
        forall|k: int|
            0 <= k < final(asteroids)@.len() ==> old(asteroids)@.contains(
                #[trigger] final(asteroids)@[k],
            ),
        old(explosions)@.len() <= final(explosions)@.len() <= old(explosions)@.len()
            + events@.len(),
        forall|k: int|
            0 <= k < old(explosions)@.len() ==> final(explosions)@[k] == old(explosions)@[k],
        forall|k: int|
            old(explosions)@.len() <= k < final(explosions)@.len() ==> fresh_explosion_ok(
                #[trigger] final(explosions)@[k],
                old(player).pos,
                old(asteroids)@,
                old(lasers)@,
                *old(next_id) as int,
                *final(next_id) as int,
            ),
{
    let ghost s0 = state_of(
        *player,
        lasers@,
        asteroids@,
        explosions@,
        *next_id as int,
        Seq::empty(),
    );
    let mut consumed: Vec<u64> = Vec::new();
    let n: usize = events.len();
    let mut idx: usize = 0;
    while idx < n
        invariant
            n == events@.len(),
            idx <= n,
            rs_wf(resolve_upto(s0, events@, idx as int)),
            *player == resolve_upto(s0, events@, idx as int).player,
            lasers@ == resolve_upto(s0, events@, idx as int).lasers,
            asteroids@ == resolve_upto(s0, events@, idx as int).asteroids,
            explosions@ == resolve_upto(s0, events@, idx as int).explosions,
            *next_id == resolve_upto(s0, events@, idx as int).next_id,
            consumed@ == resolve_upto(s0, events@, idx as int).consumed,
            player.id == s0.player.id,
            s0.next_id <= *next_id <= s0.next_id + idx,
            *player == (Player { visible: player.visible, ..*old(player) }),
            lasers@.len() <= old(lasers)@.len(),
            asteroids@.len() <= old(asteroids)@.len(),
            forall|k: int|
                0 <= k < lasers@.len() ==> old(lasers)@.contains(#[trigger] lasers@[k]),
            forall|k: int|
                0 <= k < asteroids@.len() ==> old(asteroids)@.contains(#[trigger] asteroids@[k]),
            old(explosions)@.len() <= explosions@.len() <= old(explosions)@.len() + idx,
            forall|k: int|
                0 <= k < old(explosions)@.len() ==> explosions@[k] == old(explosions)@[k],
            forall|k: int|
                old(explosions)@.len() <= k < explosions@.len() ==> fresh_explosion_ok(
                    #[trigger] explosions@[k],
                    old(player).pos,
                    old(asteroids)@,
                    old(lasers)@,
                    *old(next_id) as int,
                    *next_id as int,
                ),
            s0 == state_of(
                *old(player),
                old(lasers)@,
                old(asteroids)@,
                old(explosions)@,
                *old(next_id) as int,
                Seq::empty(),
            ),
            s0.next_id + events@.len() < 0xffff_ffff_ffff_ffff,
        decreases n - idx,
    {
        let ghost st = resolve_upto(s0, events@, idx as int);
        proof {
            lemma_step_wf(st, events@[idx as int]);
        }
        let e: CollisionEvent = events[idx];
        match e {
            CollisionEvent::Stopped(_, _) => {},
            CollisionEvent::Started(a, b) => {
                if a == player.id || b == player.id {
                    if !id_in(&consumed, player.id) {
                        let other: u64 = if a == player.id {
                            b
                        } else {
                            a
                        };
                        player.visible = false;
                        explosions.push(
                            Explosion {
                                id: *next_id,
                                pos: player.pos,
                                scale_milli: 500,
                                frame: 0,
                                timer_ms: 0,
                                kind: ExplosionKind::Player,
                            },
                        );
                        *next_id = *next_id + 1;
                        consumed.push(player.id);
                        if !id_in(&consumed, other) {
                            match find_laser(lasers, other) {
                                Some(li) => {
                                    proof {
                                        lemma_remove_laser(lasers@, li as int);
                                    }
                                    lasers.remove(li);
                                    consumed.push(other);
                                },
                                None => {},
                            }
                        }
                    }
                } else {
                    let a_is_laser: bool = match find_laser(lasers, a) {
                        Some(_) => true,
                        None => false,
                    };
                    let b_is_laser: bool = match find_laser(lasers, b) {
                        Some(_) => true,
                        None => false,
                    };
                    if a_is_laser || b_is_laser {
                        let lid: u64 = if a_is_laser {
                            a
                        } else {
                            b
                        };
                        let oid: u64 = if a_is_laser {
                            b
                        } else {
                            a
                        };
                        if !id_in(&consumed, lid) && !id_in(&consumed, oid) {
                            match find_asteroid(asteroids, oid) {
                                Some(ai) => {
                                    match find_laser(lasers, lid) {
                                        Some(li) => {
                                            let ast: AsteroidEntity = asteroids[ai];
                                            let lsr: Laser = lasers[li];
                                            explosions.push(
                                                Explosion {
                                                    id: *next_id,
                                                    pos: ast.asteroid.pos,
                                                    scale_milli: ast.asteroid.size.explosion_size(),
                                                    frame: 0,
                                                    timer_ms: 0,
                                                    kind: ExplosionKind::AsteroidHit {
                                                        asteroid: ast.asteroid,
                                                        laser_velocity: lsr.speed,
                                                    },
                                                },
                                            );
                                            *next_id = *next_id + 1;
                                            proof {
                                                lemma_remove_laser(lasers@, li as int);
                                                lemma_remove_asteroid(asteroids@, ai as int);
                                            }
                                            lasers.remove(li);
                                            asteroids.remove(ai);
                                            consumed.push(lid);
                                            consumed.push(oid);
                                        },
                                        None => {
                                            proof {
                                                assert(false);
                                            }
                                        },
                                    }
                                },
                                None => {},
                            }
                        }
                    }
                }
            },
        }
        idx += 1;
        proof {
            assert(resolve_upto(s0, events@, idx as int) == resolve_step(
                st,
                events@[idx as int - 1],
            ));
        }
    }
}

/// The deduplication law: a tick whose collision-start events all name
/// the one pair of a live laser and a live asteroid — in either order,
/// any number of times — despawns exactly that laser and that asteroid,
/// spawns exactly one asteroid explosion carrying the asteroid and the
/// laser's velocity, and leaves the vessel and everything else alone.
pub proof fn lemma_single_pair_collision(
    s0: ResolveState,
    events: Seq<CollisionEvent>,
    lid: u64,
    aid: u64,
)
    requires
        rs_wf(s0),
        s0.consumed == Seq::<u64>::empty(),
        has_laser(s0.lasers, lid),
        has_asteroid(s0.asteroids, aid),
        events.len() >= 1,
        forall|i: int|
            0 <= i < events.len() ==> #[trigger] events[i] == CollisionEvent::Started(lid, aid)
                || events[i] == CollisionEvent::Started(aid, lid),
    ensures
        ({
            let f = resolve_upto(s0, events, events.len() as int);
            let li = laser_index(s0.lasers, lid);
            let ai = asteroid_index(s0.asteroids, aid);
            &&& f.lasers == s0.lasers.remove(li)
            &&& f.asteroids == s0.asteroids.remove(ai)
            &&& f.explosions == s0.explosions.push(
                asteroid_explosion(s0.next_id, s0.asteroids[ai], s0.lasers[li].speed),
            )
            &&& f.next_id == s0.next_id + 1
            &&& f.player == s0.player
        }),
{
    let li = laser_index(s0.lasers, lid);
    let ai = asteroid_index(s0.asteroids, aid);
    assert(0 <= li < s0.lasers.len() && s0.lasers[li].id == lid);
    assert(0 <= ai < s0.asteroids.len() && s0.asteroids[ai].id == aid);
    assert(lid != s0.player.id);
    assert(aid != s0.player.id);
    assert(!has_laser(s0.lasers, aid)) by {
        if has_laser(s0.lasers, aid) {
            let j = laser_index(s0.lasers, aid);
            assert(0 <= j < s0.lasers.len() && s0.lasers[j].id == aid);
        }
    }
    let t = resolve_step(s0, events[0]);
    assert(events[0] == CollisionEvent::Started(lid, aid) || events[0] == CollisionEvent::Started(
        aid,
        lid,
    ));
    lemma_remove_laser(s0.lasers, li);
    assert(t.lasers == s0.lasers.remove(li));
    assert(t.asteroids == s0.asteroids.remove(ai));
    assert(!has_laser(t.lasers, lid));
    assert(!has_laser(t.lasers, aid)) by {
        if has_laser(t.lasers, aid) {
            assert(has_laser(s0.lasers, aid));
        }
    }
    lemma_first_step_then_identity(s0, t, events, lid, aid, events.len() as int);
}

/// After the first event has consumed the pair, every later event is a
/// no-op, so the whole fold equals the state after the first step.
proof fn lemma_first_step_then_identity(
    s0: ResolveState,
    t: ResolveState,
    events: Seq<CollisionEvent>,
    lid: u64,
    aid: u64,
    n: int,
)
    requires
        1 <= n <= events.len(),
        t == resolve_step(s0, events[0]),
        !has_laser(t.lasers, lid),
        !has_laser(t.lasers, aid),
        lid != t.player.id,
        aid != t.player.id,
        forall|i: int|
            0 <= i < events.len() ==> #[trigger] events[i] == CollisionEvent::Started(lid, aid)
                || events[i] == CollisionEvent::Started(aid, lid),
    ensures
        resolve_upto(s0, events, n) == t,
    decreases n,
{
    if n == 1 {
        assert(resolve_upto(s0, events, 1) == resolve_step(resolve_upto(s0, events, 0), events[0]));
    } else {
        lemma_first_step_then_identity(s0, t, events, lid, aid, n - 1);
        assert(events[n - 1] == CollisionEvent::Started(lid, aid) || events[n - 1]
            == CollisionEvent::Started(aid, lid));
    }
}

} // verus!
