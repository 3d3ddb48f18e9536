//! Core simulation logic of an arcade space shooter: a vessel on a toroidal
//! 2D field of drifting asteroids, lasers, explosions, and a game-flow state
//! machine.  All geometry is fixed-point: lengths in milli-units (one
//! thousandth of a world unit), so every computation is exact integer
//! arithmetic.

pub mod asteroid;
pub mod background;
pub mod collision;
pub mod explosion;
pub mod flow;
pub mod geom;
pub mod hud;
pub mod laser;
pub mod rng;
pub mod vessel;
pub mod world;
pub mod wrap;
