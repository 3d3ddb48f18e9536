//! Transient explosion entities: a nine-frame sprite animation advanced
//! on a repeating timer; when the last frame has been shown the explosion
//! despawns and hands back what must follow it (a vessel respawn or an
//! asteroid split).

use vstd::prelude::*;
use crate::geom::Vec2i;
use crate::asteroid::Asteroid;

verus! {

/// Milliseconds each animation frame is shown.
pub const EXPLOSION_FRAME_MS: u32 = 100;

/// Index of the last animation frame (frames run 0 through 8).
pub const EXPLOSION_LAST_FRAME: u32 = 8;

/// What is exploding: the payload that decides the follow-up effect.
#[derive(Clone, Copy, Debug, PartialEq, Eq, Structural)]
pub enum ExplosionKind {
    /// The vessel: on completion it respawns or the game ends.
    Player,
    /// An asteroid, remembered with the laser velocity that destroyed it:
    /// on completion a Medium or Big asteroid splits.
    AsteroidHit { asteroid: Asteroid, laser_velocity: Vec2i },
}

/// A live explosion: pose, visual scale in thousandths, current frame,
/// time accumulated toward the next frame, payload, and a world-unique
/// entity id.
#[derive(Clone, Copy, Debug, PartialEq, Eq, Structural)]
pub struct Explosion {
    pub id: u64,
    pub pos: Vec2i,
    pub scale_milli: u32,
    pub frame: u32,
    pub timer_ms: u32,
    pub kind: ExplosionKind,
}

/// A fresh explosion at its first frame.
pub fn spawn_explosion(id: u64, pos: Vec2i, scale_milli: u32, kind: ExplosionKind) -> (r:
    Explosion)
    ensures
        r == (Explosion { id, pos, scale_milli, frame: 0, timer_ms: 0, kind }),
{
    Explosion { id, pos, scale_milli, frame: 0, timer_ms: 0, kind }
}

/// A well-formed explosion: the frame index is within the sheet and the
/// accumulated time has not yet reached a frame length.
pub open spec fn explosion_wf(e: Explosion) -> bool {
    e.frame <= EXPLOSION_LAST_FRAME && e.timer_ms < EXPLOSION_FRAME_MS
}

/// One tick of the animation, as a spec value: `None` means the
/// explosion has shown its last frame and despawns, anything else is the
/// explosion one step later.  A player explosion re-tracks the vessel's
/// position whenever its timer fires.
pub open spec fn step_explosion(e: Explosion, dt: int, track: Vec2i) -> Option<Explosion> {
    let t = e.timer_ms + dt;
    if t < EXPLOSION_FRAME_MS {
        Some(Explosion { timer_ms: t as u32, ..e })
    } else if e.frame < EXPLOSION_LAST_FRAME {
        Some(
            Explosion {
                timer_ms: (t % (EXPLOSION_FRAME_MS as int)) as u32,
                frame: (e.frame + 1) as u32,
                pos: if e.kind is Player {
                    track
                } else {
                    e.pos
                },
                ..e
            },
        )
    } else {
        None
    }
}

/// Advances one explosion by `dt` milliseconds.  `track` is the vessel's
/// current position, which a player explosion follows.  Returns the
/// explosion one step later, or `None` when the animation has completed
/// and the follow-up effect is due.
pub fn animate_explosion(e: &Explosion, dt: u32, track: Vec2i) -> (r: Option<Explosion>)
    requires
        explosion_wf(*e),
        dt <= 1000000,
    ensures
        r == step_explosion(*e, dt as int, track),
        r matches Some(e2) ==> explosion_wf(e2) && e2.id == e.id && e2.kind == e.kind
            && e2.scale_milli == e.scale_milli,
{
    let t: u32 = e.timer_ms + dt;
    if t < EXPLOSION_FRAME_MS {
        Some(Explosion { timer_ms: t, ..*e })
    } else if e.frame < EXPLOSION_LAST_FRAME {
        Some(
            Explosion {
                timer_ms: t % EXPLOSION_FRAME_MS,
                frame: e.frame + 1,
                pos: if matches!(e.kind, ExplosionKind::Player) {
                    track
                } else {
                    e.pos
                },
                ..*e
            },
        )
    } else {
        None
    }
}

} // verus!
