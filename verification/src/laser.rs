//! Lasers: straight-flying projectiles with a fixed time to live, expired
//! by the simulation independently of collisions.

use vstd::prelude::*;
use crate::geom::Vec2i;

verus! {

/// How long a laser flies before it despawns on its own, in milliseconds.
pub const LASER_FLY_TIME_MS: u32 = 500;

/// A live laser: pose and velocity in milli-units, the heading step it was
/// fired at, remaining flight time in milliseconds, and a world-unique
/// entity id.
#[derive(Clone, Copy, Debug, PartialEq, Eq, Structural)]
pub struct Laser {
    pub id: u64,
    pub pos: Vec2i,
    pub heading: u32,
    pub speed: Vec2i,
    pub ttl_ms: u32,
}

/// A laser after one tick of `dt` milliseconds it survives: the remaining
/// flight time shrinks by `dt`.
pub open spec fn laser_after_tick(l: Laser, dt: int) -> Laser {
    Laser { ttl_ms: (l.ttl_ms - dt) as u32, ..l }
}

/// The first `n` lasers of `s` after a tick of `dt` milliseconds: each
/// survives exactly when its remaining flight time strictly exceeds `dt`,
/// keeping its place in the order.
pub open spec fn expire_prefix(s: Seq<Laser>, dt: int, n: int) -> Seq<Laser>
    decreases n,
{
    if n <= 0 {
        Seq::empty()
    } else if s[n - 1].ttl_ms <= dt {
        expire_prefix(s, dt, n - 1)
    } else {
        expire_prefix(s, dt, n - 1).push(laser_after_tick(s[n - 1], dt))
    }
}

/// All of `s` after a tick of `dt` milliseconds.
pub open spec fn expire_lasers(s: Seq<Laser>, dt: int) -> Seq<Laser> {
    expire_prefix(s, dt, s.len() as int)
}

/// Every laser with flight time left appears, ticked, among the
/// survivors of the pass.
pub proof fn lemma_expire_presence(s: Seq<Laser>, dt: int, n: int)
    requires
        0 <= n <= s.len(),
    ensures
        forall|j: int|
            0 <= j < n && (#[trigger] s[j]).ttl_ms > dt ==> exists|k: int|
                0 <= k < expire_prefix(s, dt, n).len() && expire_prefix(s, dt, n)[k]
                    == laser_after_tick(s[j], dt),
    decreases n,
{
    if n > 0 {
        lemma_expire_presence(s, dt, n - 1);
        assert forall|j: int| 0 <= j < n && (#[trigger] s[j]).ttl_ms > dt implies exists|k: int|
            0 <= k < expire_prefix(s, dt, n).len() && expire_prefix(s, dt, n)[k]
                == laser_after_tick(s[j], dt) by {
            if j < n - 1 {
                let k0 = choose|k: int|
                    0 <= k < expire_prefix(s, dt, n - 1).len() && #[trigger] expire_prefix(
                        s,
                        dt,
                        n - 1,
                    )[k] == laser_after_tick(s[j], dt);
                assert(expire_prefix(s, dt, n)[k0] == laser_after_tick(s[j], dt));
            } else {
                let last = expire_prefix(s, dt, n).len() - 1;
                assert(expire_prefix(s, dt, n)[last] == laser_after_tick(s[n - 1], dt));
            }
        }
    }
}

/// One tick of the flight-time watchdog: every laser's timer advances by
/// `dt` and those whose time is up are dropped, the rest keeping their
/// order.
#[verifier::rlimit(60)]
pub fn restrict_lasers_range(lasers: &mut Vec<Laser>, dt: u32)
    ensures
        final(lasers)@ == expire_lasers(old(lasers)@, dt as int),
        final(lasers)@.len() <= old(lasers)@.len(),
        forall|k: int|
            0 <= k < final(lasers)@.len() ==> exists|j: int|
                0 <= j < old(lasers)@.len() && #[trigger] final(lasers)@[k] == laser_after_tick(
                    old(lasers)@[j],
                    dt as int,
                ) && old(lasers)@[j].ttl_ms > dt,
        crate::collision::distinct_lasers(old(lasers)@) ==> crate::collision::distinct_lasers(
            final(lasers)@,
        ),
        forall|j: int|
            0 <= j < old(lasers)@.len() && (#[trigger] old(lasers)@[j]).ttl_ms > dt ==> exists|
                k: int,
            |
                0 <= k < final(lasers)@.len() && final(lasers)@[k] == laser_after_tick(
                    old(lasers)@[j],
                    dt as int,
                ),
        crate::collision::distinct_lasers(old(lasers)@) ==> forall|j: int|
            0 <= j < old(lasers)@.len() ==> (crate::collision::has_laser(
                final(lasers)@,
                (#[trigger] old(lasers)@[j]).id,
            ) <==> old(lasers)@[j].ttl_ms > dt),
{
    let n: usize = lasers.len();
    let mut out: Vec<Laser> = Vec::new();
    let mut i: usize = 0;
    while i < n
        invariant
            n == lasers@.len(),
            i <= n,
            out@ == expire_prefix(lasers@, dt as int, i as int),
            forall|k: int|
                0 <= k < out@.len() ==> exists|j: int|
                    0 <= j < i && #[trigger] out@[k] == laser_after_tick(lasers@[j], dt as int)
                        && lasers@[j].ttl_ms > dt,
            out@.len() <= i,
            crate::collision::distinct_lasers(lasers@) ==> crate::collision::distinct_lasers(out@),
        decreases n - i,
    {
        let l: Laser = lasers[i];
        if l.ttl_ms > dt {
            let l2 = Laser { ttl_ms: l.ttl_ms - dt, ..l };
            proof {
                if crate::collision::distinct_lasers(lasers@) {
                    assert forall|k: int| 0 <= k < out@.len() implies (#[trigger] out@[k]).id
                        != l2.id by {
                        let j = choose|j: int|
                            0 <= j < i && out@[k] == laser_after_tick(lasers@[j], dt as int)
                                && lasers@[j].ttl_ms > dt;
                        assert(out@[k].id == lasers@[j].id);
                    }
                }
            }
            let ghost prev = out@;
            out.push(l2);
            proof {
                assert forall|k: int| 0 <= k < out@.len() implies exists|j: int|
                    0 <= j < i + 1 && #[trigger] out@[k] == laser_after_tick(lasers@[j], dt as int)
                        && lasers@[j].ttl_ms > dt by {
                    if k < prev.len() {
                        assert(out@[k] == prev[k]);
                        let j0 = choose|j: int|
                            0 <= j < i && #[trigger] prev[k] == laser_after_tick(
                                lasers@[j],
                                dt as int,
                            ) && lasers@[j].ttl_ms > dt;
                        assert(0 <= j0 < i + 1 && out@[k] == laser_after_tick(
                            lasers@[j0],
                            dt as int,
                        ) && lasers@[j0].ttl_ms > dt);
                    } else {
                        assert(out@[k] == laser_after_tick(lasers@[i as int], dt as int));
                        assert(lasers@[i as int].ttl_ms > dt);
                    }
                }
            }
        }
        i += 1;
    }
    *lasers = out;
    proof {
        lemma_expire_presence(old(lasers)@, dt as int, old(lasers)@.len() as int);
        if crate::collision::distinct_lasers(old(lasers)@) {
            assert forall|j: int| 0 <= j < old(lasers)@.len() implies (crate::collision::has_laser(
                lasers@,
                (#[trigger] old(lasers)@[j]).id,
            ) <==> old(lasers)@[j].ttl_ms > dt) by {
                if old(lasers)@[j].ttl_ms > dt {
                    let k = choose|k: int|
                        0 <= k < lasers@.len() && lasers@[k] == laser_after_tick(
                            old(lasers)@[j],
                            dt as int,
                        );
                    assert(lasers@[k].id == old(lasers)@[j].id);
                    assert(crate::collision::has_laser(lasers@, old(lasers)@[j].id));
                }
                if crate::collision::has_laser(lasers@, old(lasers)@[j].id) {
                    let k = choose|k: int|
                        0 <= k < lasers@.len() && (#[trigger] lasers@[k]).id == old(
                            lasers,
                        )@[j].id;
                    let j2 = choose|j2: int|
                        0 <= j2 < old(lasers)@.len() && #[trigger] lasers@[k] == laser_after_tick(
                            old(lasers)@[j2],
                            dt as int,
                        ) && old(lasers)@[j2].ttl_ms > dt;
                    assert(old(lasers)@[j2].id == old(lasers)@[j].id);
                    if j2 != j {
                        assert(false);
                    }
                }
            }
        }
    }
}

/// Sum of a sequence of tick lengths.
pub open spec fn sum_of(dts: Seq<int>) -> int
    decreases dts.len(),
{
    if dts.len() == 0 {
        0
    } else {
        dts[0] + sum_of(dts.skip(1))
    }
}

/// A laser followed through a sequence of ticks it does not collide in:
/// on each tick it survives exactly when the tick is shorter than its
/// remaining flight time, as `restrict_lasers_range` decides, and its
/// timer shrinks by the tick.  `None` means it has despawned.
pub open spec fn run_flight(l: Laser, dts: Seq<int>) -> Option<Laser>
    decreases dts.len(),
{
    if dts.len() == 0 {
        Some(l)
    } else if l.ttl_ms <= dts[0] {
        None
    } else {
        run_flight(laser_after_tick(l, dts[0]), dts.skip(1))
    }
}

/// On a single laser, one pass of the watchdog acts exactly as one step
/// of `run_flight`: the laser stays, ticked, or despawns.
pub proof fn lemma_expire_matches_flight_step(l: Laser, dt: int)
    ensures
        expire_lasers(seq![l], dt) == (match run_flight(l, seq![dt]) {
            Some(l2) => seq![l2],
            None => Seq::<Laser>::empty(),
        }),
{
    let s = seq![l];
    assert(s.len() == 1 && s[0] == l);
    assert(seq![dt].len() == 1 && seq![dt][0] == dt);
    assert(expire_prefix(s, dt, 0) =~= Seq::<Laser>::empty());
    if l.ttl_ms <= dt {
        assert(expire_prefix(s, dt, 1) == expire_prefix(s, dt, 0));
    } else {
        assert(seq![dt].skip(1).len() == 0);
        assert(run_flight(laser_after_tick(l, dt), seq![dt].skip(1)) == Some(
            laser_after_tick(l, dt),
        ));
        assert(expire_prefix(s, dt, 1) =~= seq![laser_after_tick(l, dt)]);
    }
}

/// A laser that hits nothing despawns exactly on the first tick at which
/// its accumulated flight time reaches its time to live (at spawn,
/// `LASER_FLY_TIME_MS`): it is still live after a run of ticks if and
/// only if they sum to strictly less than its remaining flight time.
pub proof fn lemma_laser_flight_time(l: Laser, dts: Seq<int>)
    requires
        l.ttl_ms >= 1,
        forall|i: int| 0 <= i < dts.len() ==> #[trigger] dts[i] >= 1,
    ensures
        run_flight(l, dts) is Some <==> sum_of(dts) < l.ttl_ms,
    decreases dts.len(),
{
    if dts.len() == 0 {
    } else {
        if l.ttl_ms <= dts[0] {
            assert(dts[0] >= 1);
            lemma_sum_nonneg(dts.skip(1));
            assert(sum_of(dts) >= dts[0]);
        } else {
            assert(forall|i: int|
                0 <= i < dts.skip(1).len() ==> #[trigger] dts.skip(1)[i] >= 1);
            lemma_laser_flight_time(laser_after_tick(l, dts[0]), dts.skip(1));
        }
    }
}

/// Positive tick lengths sum to something nonnegative.
pub proof fn lemma_sum_nonneg(dts: Seq<int>)
    requires
        forall|i: int| 0 <= i < dts.len() ==> #[trigger] dts[i] >= 1,
    ensures
        sum_of(dts) >= 0,
    decreases dts.len(),
{
    if dts.len() == 0 {
    } else {
        assert(forall|i: int| 0 <= i < dts.skip(1).len() ==> #[trigger] dts.skip(1)[i] >= 1);
        lemma_sum_nonneg(dts.skip(1));
    }
}

} // verus!
