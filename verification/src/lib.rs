//! The simulation core of a vertically scrolling slingshot arcade game.
//!
//! A player token drifts under velocity and friction, eats food, passes
//! through the gaps of generated wall pairs, and loses when it hits a wall or
//! falls behind an ever-rising camera. A drag gesture launches the player
//! against the drag.
//!
//! The core is deterministic and works on integers throughout: lengths in
//! millionths of a play-field unit, durations in microseconds, fractions in
//! millionths. Sizes are half-extents. What is random is drawn in one place
//! and handed on as plain values, so that a frame is a function of the state,
//! the input and the numbers drawn.
//!
//! - [`fixed`], [`geometry`], [`world`]: arithmetic, boxes, the play-field.
//! - [`arena`]: the store of food, walls and gates.
//! - [`kinematics`], [`camera`], [`collision`], [`level`], [`gesture`],
//!   [`mode`]: the systems of the game, each on its own.
//! - [`chance`]: the random source.
//! - [`sim`]: the simulation context and its frame.
//! - [`laws`]: what holds of every frame and of every run of frames.

pub mod arena;
pub mod camera;
pub mod chance;
pub mod collision;
pub mod fixed;
pub mod geometry;
pub mod gesture;
pub mod kinematics;
pub mod laws;
pub mod level;
pub mod mode;
pub mod sim;
pub mod world;
