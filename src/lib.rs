//! A fixed-step arcade shooter simulation: a player at the bottom of the
//! playfield, a marching formation of enemies, destructible shields, and the
//! score and match lifecycle that tie them together.
//!
//! The world is modelled in integers: positions in sub-pixel units
//! (`SUBPIXELS` per pixel) and time in `TIME_UNITS_PER_TICK` units per tick of
//! 1/60 s, so every per-tick motion of the original speeds is exact.
pub mod geometry;
pub mod input;
pub mod actor;
pub mod formation;
pub mod random;
pub mod hud;
pub mod shield;
pub mod game;
pub mod collision;
pub mod simulation;
pub mod laws;
