//! Simulation core of a small 2D highway-crossing arcade game.
//!
//! A player character runs between two boundary walls above a floor, can
//! jump, and must avoid cars that rain down the screen while coins fall for
//! score.  The library holds the verified per-tick simulation: axis-aligned
//! bounding-box collision detection and iterative penetration resolution,
//! jump kinematics, rate-limited randomized spawning of cars and coins,
//! entity movement with off-screen culling, and the terminal catch test.
//!
//! All geometry is carried in exact integer sub-units (200 sub-units to one
//! world unit), so every contract states the resulting positions exactly.

pub mod collision;
pub mod entity;
pub mod game;
pub mod geom;
pub mod laws;
pub mod model;
pub mod player;
mod rng;
