//! World wrap across the toroidal play area.  Two historical policies
//! exist and both are offered, selected by configuration: independent
//! per-object wrap at four window extents from the origin, and
//! vessel-relative wrap at three window extents, where the vessel
//! teleports and free bodies receive the same six-extent correction to
//! keep the player-relative world consistent (see `shift_coord` for why
//! the correction is applied conditionally).  The simulation applies
//! exactly one policy.

use vstd::prelude::*;
use crate::geom::{Vec2i, in_bounds};
use crate::asteroid::AsteroidEntity;
use crate::laser::Laser;
use crate::vessel::Player;

verus! {

/// Which wrap policy the simulation runs with.
#[derive(Clone, Copy, Debug, PartialEq, Eq, Structural)]
pub enum WrapPolicy {
    /// Every object wraps on its own at four window extents.
    PerObject,
    /// The vessel wraps at three window extents and drags the rest of the
    /// world with it.
    VesselRelative,
}

/// One coordinate teleported across the boundary at `bound`: a coordinate
/// beyond the boundary reappears exactly at the mirrored boundary, one
/// inside moves nowhere.
pub open spec fn wrap_coord(x: int, bound: int) -> int {
    if x > bound {
        -bound
    } else if x < -bound {
        bound
    } else {
        x
    }
}

/// A position with both axes wrapped independently at `(bound_x, bound_y)`.
pub open spec fn wrap_pos(p: Vec2i, bound_x: int, bound_y: int) -> Vec2i {
    Vec2i { x: wrap_coord(p.x as int, bound_x) as i64, y: wrap_coord(p.y as int, bound_y) as i64 }
}

/// Wraps one position at the per-object boundary: an axis beyond its
/// bound reappears at the mirrored bound while the orthogonal axis keeps
/// its value.
pub fn wrap_position(p: Vec2i, bound_x: i64, bound_y: i64) -> (r: Vec2i)
    requires
        0 < bound_x <= 16000000,
        0 < bound_y <= 16000000,
    ensures
        r == wrap_pos(p, bound_x as int, bound_y as int),
        p.x > bound_x ==> r.x == -bound_x,
        p.x < -bound_x ==> r.x == bound_x,
        -bound_x <= p.x <= bound_x ==> r.x == p.x,
        p.y > bound_y ==> r.y == -bound_y,
        p.y < -bound_y ==> r.y == bound_y,
        -bound_y <= p.y <= bound_y ==> r.y == p.y,
        in_bounds(r, 16000000),
{
    let x: i64 = if p.x > bound_x {
        -bound_x
    } else if p.x < -bound_x {
        bound_x
    } else {
        p.x
    };
    let y: i64 = if p.y > bound_y {
        -bound_y
    } else if p.y < -bound_y {
        bound_y
    } else {
        p.y
    };
    Vec2i { x, y }
}

/// The per-object policy applied to the whole asteroid field: each
/// asteroid's position wraps independently; nothing else about it
/// changes.
pub fn wrap_asteroids(asteroids: &mut Vec<AsteroidEntity>, bound_x: i64, bound_y: i64)
    requires
        0 < bound_x <= 16000000,
        0 < bound_y <= 16000000,
    ensures
        final(asteroids)@.len() == old(asteroids)@.len(),
        forall|i: int|
            0 <= i < old(asteroids)@.len() ==> #[trigger] final(asteroids)@[i]
                == (AsteroidEntity {
                asteroid: crate::asteroid::Asteroid {
                    pos: wrap_pos(old(asteroids)@[i].asteroid.pos, bound_x as int, bound_y as int),
                    ..old(asteroids)@[i].asteroid
                },
                ..old(asteroids)@[i]
            }),
{
    let n: usize = asteroids.len();
    let mut i: usize = 0;
    while i < n
        invariant
            n == asteroids@.len(),
            i <= n,
            0 < bound_x <= 16000000,
            0 < bound_y <= 16000000,
            asteroids@.len() == old(asteroids)@.len(),
            forall|k: int| i <= k < n ==> #[trigger] asteroids@[k] == old(asteroids)@[k],
            forall|k: int|
                0 <= k < i ==> #[trigger] asteroids@[k] == (AsteroidEntity {
                    asteroid: crate::asteroid::Asteroid {
                        pos: wrap_pos(old(asteroids)@[k].asteroid.pos, bound_x as int, bound_y as int),
                        ..old(asteroids)@[k].asteroid
                    },
                    ..old(asteroids)@[k]
                }),
        decreases n - i,
    {
        let a: AsteroidEntity = asteroids[i];
        let wrapped: Vec2i = wrap_position(a.asteroid.pos, bound_x, bound_y);
        asteroids[i] = AsteroidEntity {
            asteroid: crate::asteroid::Asteroid { pos: wrapped, ..a.asteroid },
            ..a
        };
        i += 1;
    }
}

/// One coordinate of a free body corrected when the vessel wraps on that
/// axis: a body beyond two window extents on either side comes back by
/// the same six extents the vessel teleported by, restoring it into the
/// vessel's new frame; a body within two extents stays.
///
/// This is deliberately the conditional form, not a blanket six-extent
/// shift of every body: shifting every body unconditionally would let
/// absolute coordinates grow without bound across successive wraps and
/// break the fixed-point coordinate envelope that every other contract
/// rests on, while this form applies the identical correction exactly
/// where it keeps the body near the vessel, and leaves a body that is
/// already in the vessel's frame (within two extents) where the frame
/// change does not need it moved.
pub open spec fn shift_coord(x: int, w: int) -> int {
    if x > 2 * w {
        x - 6 * w
    } else if x < -2 * w {
        x + 6 * w
    } else {
        x
    }
}

/// Applies the six-extent correction (`shift_coord`, conditional by
/// design) to every free body's X coordinate after a horizontal vessel
/// wrap.
pub fn translate_objects_horiz(asteroids: &mut Vec<AsteroidEntity>, lasers: &mut Vec<Laser>, w: i64)
    requires
        0 < w <= 2000000,
        forall|i: int|
            0 <= i < old(asteroids)@.len() ==> in_bounds(
                #[trigger] old(asteroids)@[i].asteroid.pos,
                16000000,
            ),
        forall|i: int| 0 <= i < old(lasers)@.len() ==> in_bounds(#[trigger] old(lasers)@[i].pos, 16000000),
    ensures
        final(asteroids)@.len() == old(asteroids)@.len(),
        final(lasers)@.len() == old(lasers)@.len(),
        forall|i: int|
            0 <= i < old(asteroids)@.len() ==> #[trigger] final(asteroids)@[i]
                == (AsteroidEntity {
                asteroid: crate::asteroid::Asteroid {
                    pos: Vec2i {
                        x: shift_coord(old(asteroids)@[i].asteroid.pos.x as int, w as int) as i64,
                        y: old(asteroids)@[i].asteroid.pos.y,
                    },
                    ..old(asteroids)@[i].asteroid
                },
                ..old(asteroids)@[i]
            }),
        forall|i: int|
            0 <= i < old(lasers)@.len() ==> #[trigger] final(lasers)@[i] == (Laser {
                pos: Vec2i {
                    x: shift_coord(old(lasers)@[i].pos.x as int, w as int) as i64,
                    y: old(lasers)@[i].pos.y,
                },
                ..old(lasers)@[i]
            }),
{
    let n: usize = asteroids.len();
    let mut i: usize = 0;
    while i < n
        invariant
            n == asteroids@.len(),
            i <= n,
            0 < w <= 2000000,
            asteroids@.len() == old(asteroids)@.len(),
            forall|k: int| i <= k < n ==> #[trigger] asteroids@[k] == old(asteroids)@[k],
            forall|k: int|
                i <= k < n ==> in_bounds(#[trigger] old(asteroids)@[k].asteroid.pos, 16000000),
            forall|k: int|
                0 <= k < i ==> #[trigger] asteroids@[k] == (AsteroidEntity {
                    asteroid: crate::asteroid::Asteroid {
                        pos: Vec2i {
                            x: shift_coord(old(asteroids)@[k].asteroid.pos.x as int, w as int)
                                as i64,
                            y: old(asteroids)@[k].asteroid.pos.y,
                        },
                        ..old(asteroids)@[k].asteroid
                    },
                    ..old(asteroids)@[k]
                }),
        decreases n - i,
    {
        let a: AsteroidEntity = asteroids[i];
        let x: i64 = if a.asteroid.pos.x > 2 * w {
            a.asteroid.pos.x - 6 * w
        } else if a.asteroid.pos.x < -2 * w {
            a.asteroid.pos.x + 6 * w
        } else {
            a.asteroid.pos.x
        };
        asteroids[i] = AsteroidEntity {
            asteroid: crate::asteroid::Asteroid {
                pos: Vec2i { x, y: a.asteroid.pos.y },
                ..a.asteroid
            },
            ..a
        };
        i += 1;
    }
    let two: i64 = 2 * w;
    let six: i64 = 6 * w;
    let m: usize = lasers.len();
    let mut j: usize = 0;
    while j < m
        invariant
            m == lasers@.len(),
            j <= m,
            two == 2 * w,
            six == 6 * w,
            0 < w <= 2000000,
            lasers@.len() == old(lasers)@.len(),
            forall|k: int| j <= k < m ==> #[trigger] lasers@[k] == old(lasers)@[k],
            forall|k: int| j <= k < m ==> in_bounds(#[trigger] old(lasers)@[k].pos, 16000000),
            forall|k: int|
                0 <= k < j ==> #[trigger] lasers@[k] == (Laser {
                    pos: Vec2i {
                        x: shift_coord(old(lasers)@[k].pos.x as int, w as int) as i64,
                        y: old(lasers)@[k].pos.y,
                    },
                    ..old(lasers)@[k]
                }),
        decreases m - j,
    {
        let l: Laser = lasers[j];
        proof {
            assert(lasers@[j as int] == old(lasers)@[j as int]);
            assert(in_bounds(old(lasers)@[j as int].pos, 16000000));
        }
        let x: i64 = if l.pos.x > two {
            l.pos.x - six
        } else if l.pos.x < -two {
            l.pos.x + six
        } else {
            l.pos.x
        };
        lasers[j] = Laser { pos: Vec2i { x, y: l.pos.y }, ..l };
        j += 1;
    }
}

/// Applies the six-extent correction (`shift_coord`, conditional by
/// design) to every free body's Y coordinate after a vertical vessel
/// wrap.
pub fn translate_objects_vert(asteroids: &mut Vec<AsteroidEntity>, lasers: &mut Vec<Laser>, h: i64)
    requires
        0 < h <= 2000000,
        forall|i: int|
            0 <= i < old(asteroids)@.len() ==> in_bounds(
                #[trigger] old(asteroids)@[i].asteroid.pos,
                16000000,
            ),
        forall|i: int| 0 <= i < old(lasers)@.len() ==> in_bounds(#[trigger] old(lasers)@[i].pos, 16000000),
    ensures
        final(asteroids)@.len() == old(asteroids)@.len(),
        final(lasers)@.len() == old(lasers)@.len(),
        forall|i: int|
            0 <= i < old(asteroids)@.len() ==> #[trigger] final(asteroids)@[i]
                == (AsteroidEntity {
                asteroid: crate::asteroid::Asteroid {
                    pos: Vec2i {
                        x: old(asteroids)@[i].asteroid.pos.x,
                        y: shift_coord(old(asteroids)@[i].asteroid.pos.y as int, h as int) as i64,
                    },
                    ..old(asteroids)@[i].asteroid
                },
                ..old(asteroids)@[i]
            }),
        forall|i: int|
            0 <= i < old(lasers)@.len() ==> #[trigger] final(lasers)@[i] == (Laser {
                pos: Vec2i {
                    x: old(lasers)@[i].pos.x,
                    y: shift_coord(old(lasers)@[i].pos.y as int, h as int) as i64,
                },
                ..old(lasers)@[i]
            }),
{
    let n: usize = asteroids.len();
    let mut i: usize = 0;
    while i < n
        invariant
            n == asteroids@.len(),
            i <= n,
            0 < h <= 2000000,
            asteroids@.len() == old(asteroids)@.len(),
            forall|k: int| i <= k < n ==> #[trigger] asteroids@[k] == old(asteroids)@[k],
            forall|k: int|
                i <= k < n ==> in_bounds(#[trigger] old(asteroids)@[k].asteroid.pos, 16000000),
            forall|k: int|
                0 <= k < i ==> #[trigger] asteroids@[k] == (AsteroidEntity {
                    asteroid: crate::asteroid::Asteroid {
                        pos: Vec2i {
                            x: old(asteroids)@[k].asteroid.pos.x,
                            y: shift_coord(old(asteroids)@[k].asteroid.pos.y as int, h as int)
                                as i64,
                        },
                        ..old(asteroids)@[k].asteroid
                    },
                    ..old(asteroids)@[k]
                }),
        decreases n - i,
    {
        let a: AsteroidEntity = asteroids[i];
        let y: i64 = if a.asteroid.pos.y > 2 * h {
            a.asteroid.pos.y - 6 * h
        } else if a.asteroid.pos.y < -2 * h {
            a.asteroid.pos.y + 6 * h
        } else {
            a.asteroid.pos.y
        };
        asteroids[i] = AsteroidEntity {
            asteroid: crate::asteroid::Asteroid {
                pos: Vec2i { x: a.asteroid.pos.x, y },
                ..a.asteroid
            },
            ..a
        };
        i += 1;
    }
    let two: i64 = 2 * h;
    let six: i64 = 6 * h;
    let m: usize = lasers.len();
    let mut j: usize = 0;
    while j < m
        invariant
            m == lasers@.len(),
            j <= m,
            two == 2 * h,
            six == 6 * h,
            0 < h <= 2000000,
            lasers@.len() == old(lasers)@.len(),
            forall|k: int| j <= k < m ==> #[trigger] lasers@[k] == old(lasers)@[k],
            forall|k: int| j <= k < m ==> in_bounds(#[trigger] old(lasers)@[k].pos, 16000000),
            forall|k: int|
                0 <= k < j ==> #[trigger] lasers@[k] == (Laser {
                    pos: Vec2i {
                        x: old(lasers)@[k].pos.x,
                        y: shift_coord(old(lasers)@[k].pos.y as int, h as int) as i64,
                    },
                    ..old(lasers)@[k]
                }),
        decreases m - j,
    {
        let l: Laser = lasers[j];
        proof {
            assert(lasers@[j as int] == old(lasers)@[j as int]);
            assert(in_bounds(old(lasers)@[j as int].pos, 16000000));
        }
        let y: i64 = if l.pos.y > two {
            l.pos.y - six
        } else if l.pos.y < -two {
            l.pos.y + six
        } else {
            l.pos.y
        };
        lasers[j] = Laser { pos: Vec2i { x: l.pos.x, y }, ..l };
        j += 1;
    }
}

/// The vessel-relative policy: when the vessel crosses three window
/// extents on an axis it teleports to the opposite extreme, and every
/// free body beyond two extents comes back by the six extents the vessel
/// teleported by (see `shift_coord` for why the correction is
/// conditional); an axis the vessel has not crossed changes for nobody.
pub fn wrap_vessel(
    p: &mut Player,
    asteroids: &mut Vec<AsteroidEntity>,
    lasers: &mut Vec<Laser>,
    w: i64,
    h: i64,
)
    requires
        0 < w <= 2000000,
        0 < h <= 2000000,
        in_bounds(old(p).pos, 16000000),
        forall|i: int|
            0 <= i < old(asteroids)@.len() ==> in_bounds(
                #[trigger] old(asteroids)@[i].asteroid.pos,
                16000000,
            ),
        forall|i: int| 0 <= i < old(lasers)@.len() ==> in_bounds(#[trigger] old(lasers)@[i].pos, 16000000),
    ensures
        final(p).pos.x == wrap_coord(old(p).pos.x as int, 3 * w),
        final(p).pos.y == wrap_coord(old(p).pos.y as int, 3 * h),
        *final(p) == (Player { pos: final(p).pos, ..*old(p) }),
        -3 * w <= old(p).pos.x <= 3 * w && -3 * h <= old(p).pos.y <= 3 * h ==> final(asteroids)@
            == old(asteroids)@ && final(lasers)@ == old(lasers)@,
        final(asteroids)@.len() == old(asteroids)@.len(),
        final(lasers)@.len() == old(lasers)@.len(),
        forall|i: int|
            0 <= i < old(asteroids)@.len() ==> #[trigger] final(asteroids)@[i]
                == (AsteroidEntity {
                asteroid: crate::asteroid::Asteroid {
                    pos: shifted_pos(
                        old(asteroids)@[i].asteroid.pos,
                        old(p).pos,
                        w as int,
                        h as int,
                    ),
                    ..old(asteroids)@[i].asteroid
                },
                ..old(asteroids)@[i]
            }),
        forall|i: int|
            0 <= i < old(lasers)@.len() ==> #[trigger] final(lasers)@[i] == (Laser {
                pos: shifted_pos(old(lasers)@[i].pos, old(p).pos, w as int, h as int),
                ..old(lasers)@[i]
            }),
        forall|i: int|
            0 <= i < old(asteroids)@.len() ==> in_bounds(
                (#[trigger] final(asteroids)@[i]).asteroid.pos,
                16000000,
            ) && (in_bounds(old(asteroids)@[i].asteroid.pos, 12000000) ==> in_bounds(
                final(asteroids)@[i].asteroid.pos,
                12000000,
            )),
        forall|i: int|
            0 <= i < old(lasers)@.len() ==> in_bounds((#[trigger] final(lasers)@[i]).pos, 16000000)
                && (in_bounds(old(lasers)@[i].pos, 12000000) ==> in_bounds(
                final(lasers)@[i].pos,
                12000000,
            )),
{
    let px: i64 = p.pos.x;
    let py: i64 = p.pos.y;
    let ghost a0 = asteroids@;
    let ghost l0 = lasers@;
    if px > 3 * w {
        p.pos = Vec2i { x: -3 * w, y: p.pos.y };
        translate_objects_horiz(asteroids, lasers, w);
    } else if px < -3 * w {
        p.pos = Vec2i { x: 3 * w, y: p.pos.y };
        translate_objects_horiz(asteroids, lasers, w);
    }
    let ghost a1 = asteroids@;
    let ghost l1 = lasers@;
    proof {
        assert forall|i: int| 0 <= i < asteroids@.len() implies in_bounds(
            #[trigger] asteroids@[i].asteroid.pos,
            16000000,
        ) by {
            assert(in_bounds(a0[i].asteroid.pos, 16000000));
        }
        assert forall|i: int| 0 <= i < lasers@.len() implies in_bounds(
            #[trigger] lasers@[i].pos,
            16000000,
        ) by {
            assert(in_bounds(l0[i].pos, 16000000));
        }
    }
    if py > 3 * h {
        p.pos = Vec2i { x: p.pos.x, y: -3 * h };
        translate_objects_vert(asteroids, lasers, h);
    } else if py < -3 * h {
        p.pos = Vec2i { x: p.pos.x, y: 3 * h };
        translate_objects_vert(asteroids, lasers, h);
    }
    proof {
        assert forall|i: int| 0 <= i < a0.len() implies #[trigger] asteroids@[i]
            == (AsteroidEntity {
            asteroid: crate::asteroid::Asteroid {
                pos: shifted_pos(a0[i].asteroid.pos, old(p).pos, w as int, h as int),
                ..a0[i].asteroid
            },
            ..a0[i]
        }) by {
            assert(a1[i].id == a0[i].id && asteroids@[i].id == a1[i].id);
        }
        assert forall|i: int| 0 <= i < l0.len() implies #[trigger] lasers@[i] == (Laser {
            pos: shifted_pos(l0[i].pos, old(p).pos, w as int, h as int),
            ..l0[i]
        }) by {
            assert(l1[i].id == l0[i].id && lasers@[i].id == l1[i].id);
        }
    }
}

/// Where a free body at `q` stands after the vessel at `vp` has been
/// wrapped: the horizontal correction applies exactly when the vessel
/// crossed three window widths, the vertical one exactly when it crossed
/// three window heights.
pub open spec fn shifted_pos(q: Vec2i, vp: Vec2i, w: int, h: int) -> Vec2i {
    Vec2i {
        x: if vp.x > 3 * w || vp.x < -3 * w {
            shift_coord(q.x as int, w) as i64
        } else {
            q.x
        },
        y: if vp.y > 3 * h || vp.y < -3 * h {
            shift_coord(q.y as int, h) as i64
        } else {
            q.y
        },
    }
}

} // verus!
