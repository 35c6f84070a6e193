//! Simulation core of a small 2D arcade shooter.
//!
//! A player ship slides left and right and fires projectiles upward while enemy
//! ships bounce between the left and right edges of the window. This crate holds
//! the game state and the rules that advance it; windowing, rendering, asset
//! loading and input polling belong to the host.
//!
//! All quantities are integers, so every rule is exact:
//!
//! * a duration is a count of nanoseconds (`u64`);
//! * a length is a count of [`units::UNIT`]ths of a world unit (`i128`);
//! * a speed is a count of [`units::SPEED_UNIT`]ths of a world unit per second (`i64`);
//! * a direction component is a count of [`units::DIRECTION_ONE`]ths (`i32`).
//!
//! The scales are chosen so that speed × duration is a length without rounding.
//!
//! The host drives two entry points: [`schedule::fixed_update`] once per
//! simulation tick and [`schedule::frame_update`] once per rendered frame. Both
//! ask that the places they lead to can be stored; [`schedule::try_fixed_update`]
//! and [`schedule::try_frame_update`] test that first and ask nothing.
//!
//! The rules are stated as functions on a sequence of entities, one module per
//! rule, and [`laws`] proves what follows from them.

pub mod units;
pub mod clock;
pub mod space;
pub mod components;
pub mod world;
pub mod input;
pub mod shooting;
pub mod movement;
pub mod projectile;
pub mod enemy;
pub mod animation;
pub mod setup;
pub mod schedule;
pub mod laws;
